//! Decision logic of the A2S challenge-response exchange. The caller owns the
//! socket: it sends what `ChallengeExchange` hands out and feeds back what
//! arrives.

use vstd::prelude::*;
use crate::codec::{be_i32, read_be_i32};
use crate::error::QueryError;
use crate::packet::{PacketType, ReqPacket, ResPacket};

verus! {

/// Payload length of a challenge notification.
pub const CHALLENGE_SIZE: usize = 4;
/// Most challenge rounds answered within one exchange.
pub const CHALLENGE_COUNTER_MAX: usize = 10;

/// What to do after a response.
#[derive(Clone, Debug)]
pub enum A2sStep {
    /// Send these bytes and report the next response.
    Resend(Vec<u8>),
    /// The exchange is over; this is its result.
    Done(ResPacket),
}

/// One INFO or RULES request, carried through its challenge rounds.
#[derive(Clone, Debug)]
pub struct ChallengeExchange {
    pub kind: PacketType,
    pub request: ReqPacket,
    /// Challenge rounds answered so far.
    pub rounds: usize,
}

/// Once `CHALLENGE_COUNTER_MAX` rounds have been answered no response counts
/// as a challenge: since each resend answers one round and an exchange starts
/// at none, an exchange resends at most `CHALLENGE_COUNTER_MAX` times and then
/// returns the last response, whatever its header.
pub proof fn lemma_rounds_bounded(x: ChallengeExchange, res: ResPacket)
    requires
        x.wf(),
        x.rounds == CHALLENGE_COUNTER_MAX,
    ensures
        !x.is_challenge(res),
{
}

impl ChallengeExchange {
    pub open spec fn wf(&self) -> bool {
        self.rounds <= CHALLENGE_COUNTER_MAX
    }

    /// `res` asks for another challenge round in this state.
    pub open spec fn is_challenge(&self, res: ResPacket) -> bool {
        res.header == ResPacket::HEADER_CHALLENGE && self.rounds < CHALLENGE_COUNTER_MAX
    }

    /// Starts an exchange with the canonical request of `kind`.
    pub fn new(kind: PacketType) -> (r: ChallengeExchange)
        ensures
            r.wf(),
            r.kind == kind,
            r.request.is_canonical(kind),
            r.rounds == 0,
    {
        ChallengeExchange { kind, request: ReqPacket::from_type(kind), rounds: 0 }
    }

    /// The bytes of the request as it currently stands.
    pub fn packet(&self) -> (r: Vec<u8>)
        ensures
            r@ == self.request.spec_bytes(),
    {
        self.request.to_raw()
    }

    /// Takes the next response. A challenge notification, while fewer than
    /// `CHALLENGE_COUNTER_MAX` rounds have been answered, is answered by a
    /// resend that carries the challenge (and, for RULES, no payload); any
    /// other response ends the exchange and is returned as it came.
    pub fn on_response(&mut self, res: ResPacket) -> (r: Result<A2sStep, QueryError>)
        requires
            old(self).wf(),
        ensures
            final(self).wf(),
            !old(self).is_challenge(res) ==> r == Ok::<A2sStep, QueryError>(A2sStep::Done(res))
                && *final(self) == *old(self),
            old(self).is_challenge(res) && res.payload@.len() != CHALLENGE_SIZE ==> r == Err::<
                A2sStep,
                QueryError,
            >(QueryError::MalformedPacket) && *final(self) == *old(self),
            old(self).is_challenge(res) && res.payload@.len() == CHALLENGE_SIZE ==> {
                &&& final(self).kind == old(self).kind
                &&& final(self).rounds == old(self).rounds + 1
                &&& final(self).request.header == old(self).request.header
                &&& final(self).request.challenge == Some(be_i32(res.payload@) as i32)
                &&& old(self).kind == PacketType::Rules ==> final(self).request.payload.is_none()
                &&& old(self).kind == PacketType::Info ==> final(self).request.payload
                    == old(self).request.payload
                &&& r matches Ok(A2sStep::Resend(bytes)) && bytes@
                    == final(self).request.spec_bytes()
            },
    {
        if res.header != ResPacket::HEADER_CHALLENGE || self.rounds >= CHALLENGE_COUNTER_MAX {
            return Ok(A2sStep::Done(res));
        }
        if res.payload.len() != CHALLENGE_SIZE {
            return Err(QueryError::MalformedPacket);
        }
        let challenge = read_be_i32(res.payload.as_slice());
        if self.kind == PacketType::Rules {
            self.request.payload = None;
        }
        self.request.challenge = Some(challenge);
        self.rounds = self.rounds + 1;
        Ok(A2sStep::Resend(self.request.to_raw()))
    }
}

} // verus!
