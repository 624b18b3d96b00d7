//! Failure kinds surfaced by both protocol engines.

use vstd::prelude::*;

verus! {

/// Why a query or a discovery run failed.
#[derive(Clone, Copy, Debug, PartialEq, Eq, Structural)]
pub enum QueryError {
    /// The name resolver produced no address for the host.
    ResolutionFailure,
    /// A socket bind, connect, send or receive failed.
    IoFailure,
    /// No response arrived within the receive window.
    Timeout,
    /// A response was too short to frame, or a challenge payload was not 4 bytes.
    MalformedPacket,
}

} // verus!
