//! Client core for the game-server master discovery protocol and the A2S
//! server query protocol: wire codecs, filter encoding, and the decision
//! logic of both protocol engines, with the sockets left to the caller.

pub mod codec;
pub mod error;
pub mod filters;
pub mod packet;
pub mod server;
pub mod master;
