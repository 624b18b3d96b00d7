//! Outbound request packets and inbound response packets, with their wire forms.

use vstd::prelude::*;
use crate::codec::{be_bytes, push_all, push_be_i32};
use crate::error::QueryError;

verus! {

/// Header of an A2S INFO request.
pub const HEADER_A2S_INFO: u8 = 0x54;
/// Header of an A2S RULES request.
pub const HEADER_A2S_RULES: u8 = 0x56;
/// Header of a master discovery request.
pub const HEADER_MASTER_QUERY: u8 = 0x31;

/// Bytes that precede the header of every packet.
pub open spec fn packet_prefix() -> Seq<u8> {
    seq![0xFFu8, 0xFFu8, 0xFFu8, 0xFFu8]
}

/// The bytes of `Source Engine Query` followed by a NUL.
pub open spec fn info_literal() -> Seq<u8> {
    seq![83u8, 111u8, 117u8, 114u8, 99u8, 101u8, 32u8, 69u8, 110u8, 103u8, 105u8, 110u8,
        101u8, 32u8, 81u8, 117u8, 101u8, 114u8, 121u8, 0u8]
}

/// The kinds of A2S request.
#[derive(Clone, Copy, Debug, PartialEq, Eq, Structural)]
pub enum PacketType {
    Info,
    Rules,
}

/// An outbound query packet.
#[derive(Clone, Debug)]
pub struct ReqPacket {
    pub header: u8,
    /// Bytes sent after the header, exactly as they go on the wire.
    pub payload: Option<Vec<u8>>,
    /// Sent after the payload as 4 big-endian bytes.
    pub challenge: Option<i32>,
}

/// The wire form of a request with these fields.
pub open spec fn request_bytes(header: u8, payload: Option<Seq<u8>>, challenge: Option<i32>) -> Seq<u8> {
    packet_prefix().push(header) + match payload {
        Some(p) => p,
        None => Seq::<u8>::empty(),
    } + match challenge {
        Some(c) => be_bytes(c),
        None => Seq::<u8>::empty(),
    }
}

/// The payload of a request as a sequence, if it has one.
pub open spec fn payload_view(p: Option<Vec<u8>>) -> Option<Seq<u8>> {
    match p {
        Some(v) => Some(v@),
        None => None,
    }
}

impl ReqPacket {
    pub open spec fn spec_bytes(&self) -> Seq<u8> {
        request_bytes(self.header, payload_view(self.payload), self.challenge)
    }

    /// `self` is the canonical request of `packet_type`: INFO carries the
    /// `Source Engine Query` literal, RULES carries no payload; neither carries
    /// a challenge yet.
    pub open spec fn is_canonical(&self, packet_type: PacketType) -> bool {
        &&& self.challenge.is_none()
        &&& packet_type == PacketType::Info ==> self.header == HEADER_A2S_INFO
            && payload_view(self.payload) == Some(info_literal())
        &&& packet_type == PacketType::Rules ==> self.header == HEADER_A2S_RULES
            && self.payload.is_none()
    }

    pub fn new(header: u8, payload: Option<Vec<u8>>, challenge: Option<i32>) -> (r: ReqPacket)
        ensures
            r.header == header,
            r.payload == payload,
            r.challenge == challenge,
    {
        ReqPacket { header, payload, challenge }
    }

    /// The canonical request of a kind.
    pub fn from_type(packet_type: PacketType) -> (r: ReqPacket)
        ensures
            r.is_canonical(packet_type),
    {
        match packet_type {
            PacketType::Info => {
                let lit: [u8; 20] = [83u8, 111u8, 117u8, 114u8, 99u8, 101u8, 32u8, 69u8,
                    110u8, 103u8, 105u8, 110u8, 101u8, 32u8, 81u8, 117u8, 101u8, 114u8, 121u8, 0u8];
                let mut payload: Vec<u8> = Vec::new();
                push_all(&mut payload, &lit);
                assert(payload@ =~= info_literal());
                ReqPacket::new(HEADER_A2S_INFO, Some(payload), None)
            },
            PacketType::Rules => ReqPacket::new(HEADER_A2S_RULES, None, None),
        }
    }

    /// The wire form: `FF FF FF FF`, the header, the payload if any, then the
    /// challenge as 4 big-endian bytes if any.
    pub fn to_raw(&self) -> (r: Vec<u8>)
        ensures
            r@ == self.spec_bytes(),
    {
        let mut buf: Vec<u8> = Vec::new();
        buf.push(0xFFu8);
        buf.push(0xFFu8);
        buf.push(0xFFu8);
        buf.push(0xFFu8);
        buf.push(self.header);
        match &self.payload {
            Some(p) => push_all(&mut buf, p.as_slice()),
            None => {},
        }
        match self.challenge {
            Some(c) => push_be_i32(&mut buf, c),
            None => {},
        }
        assert(buf@ =~= self.spec_bytes());
        buf
    }
}

/// Stripping the prefix and the header from an encoded request leaves the
/// payload followed by the challenge's 4 big-endian bytes, each only if present.
pub proof fn lemma_request_round_trip(header: u8, payload: Option<Seq<u8>>, challenge: Option<i32>)
    ensures
        request_bytes(header, payload, challenge).subrange(0, 4) == packet_prefix(),
        request_bytes(header, payload, challenge)[4] == header,
        request_bytes(header, payload, challenge).subrange(
            5,
            request_bytes(header, payload, challenge).len() as int,
        ) == match payload {
            Some(p) => p,
            None => Seq::<u8>::empty(),
        } + match challenge {
            Some(c) => be_bytes(c),
            None => Seq::<u8>::empty(),
        },
{
    let b = request_bytes(header, payload, challenge);
    assert(b.subrange(0, 4) =~= packet_prefix());
    assert(b.subrange(5, b.len() as int) =~= match payload {
        Some(p) => p,
        None => Seq::<u8>::empty(),
    } + match challenge {
        Some(c) => be_bytes(c),
        None => Seq::<u8>::empty(),
    });
}

/// An inbound response: the header byte and what follows it.
#[derive(Clone, Debug, PartialEq, Eq)]
pub struct ResPacket {
    pub header: u8,
    pub payload: Vec<u8>,
}

impl ResPacket {
    /// Header of a challenge notification.
    pub const HEADER_CHALLENGE: u8 = 0x41;
    /// Header of a RULES response.
    pub const HEADER_A2S_RULES: u8 = 0x56;

    /// Frames a received datagram: the first 4 bytes are the prefix, the
    /// next one the header, the rest the payload.
    pub fn from_datagram(datagram: &[u8]) -> (r: Result<ResPacket, QueryError>)
        ensures
            datagram@.len() < 5 ==> r == Err::<ResPacket, QueryError>(QueryError::MalformedPacket),
            datagram@.len() >= 5 ==> r is Ok && r->Ok_0.header == datagram@[4]
                && r->Ok_0.payload@ == datagram@.subrange(5, datagram@.len() as int),
    {
        if datagram.len() < 5 {
            return Err(QueryError::MalformedPacket);
        }
        let mut payload: Vec<u8> = Vec::new();
        let mut i: usize = 5;
        while i < datagram.len()
            invariant
                5 <= i <= datagram@.len(),
                payload@ == datagram@.subrange(5, i as int),
            decreases datagram@.len() - i,
        {
            payload.push(datagram[i]);
            i = i + 1;
            assert(payload@ =~= datagram@.subrange(5, i as int));
        }
        Ok(ResPacket { header: datagram[4], payload })
    }
}

} // verus!
