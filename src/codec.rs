//! Byte-level building blocks shared by both protocols: the 6-byte address
//! record, decimal rendering, and big-endian 32-bit challenge values.

use vstd::prelude::*;

verus! {

/// Number of bytes in one address record of a master response.
pub const ADDRESS_SIZE: usize = 6;

/// An IPv4 endpoint: four octets in network order and a port.
#[derive(Clone, Copy, Debug, PartialEq, Eq)]
pub struct Address {
    pub ip: [u8; 4],
    pub port: u16,
}

/// `a` is the address that the 6-byte record `b` denotes: four octets in
/// order, then a big-endian port.
pub open spec fn decodes_to(b: Seq<u8>, a: Address) -> bool {
    &&& b.len() == 6
    &&& a.ip@ == b.subrange(0, 4)
    &&& a.port as int == b[4] as int * 256 + b[5] as int
}

/// The 6-byte record that denotes `a`.
pub open spec fn address_bytes(a: Address) -> Seq<u8> {
    a.ip@ + seq![(a.port / 256) as u8, (a.port % 256) as u8]
}

impl Address {
    /// The "end of list" terminator `0.0.0.0:0`.
    pub open spec fn spec_is_terminator(self) -> bool {
        self.ip@ == seq![0u8, 0u8, 0u8, 0u8] && self.port == 0
    }

    /// The placeholder `255.255.255.255:<any>`.
    pub open spec fn spec_is_placeholder(self) -> bool {
        self.ip@ == seq![255u8, 255u8, 255u8, 255u8]
    }

    pub fn unspecified() -> (r: Address)
        ensures
            r.spec_is_terminator(),
    {
        let r = Address { ip: [0u8, 0u8, 0u8, 0u8], port: 0 };
        assert(r.ip@ =~= seq![0u8, 0u8, 0u8, 0u8]);
        r
    }

    pub fn is_terminator(&self) -> (r: bool)
        ensures
            r == self.spec_is_terminator(),
    {
        let r = self.ip[0] == 0 && self.ip[1] == 0 && self.ip[2] == 0 && self.ip[3] == 0
            && self.port == 0;
        assert(r ==> self.ip@ =~= seq![0u8, 0u8, 0u8, 0u8]);
        r
    }

    pub fn is_placeholder(&self) -> (r: bool)
        ensures
            r == self.spec_is_placeholder(),
    {
        let r = self.ip[0] == 255 && self.ip[1] == 255 && self.ip[2] == 255 && self.ip[3] == 255;
        assert(r ==> self.ip@ =~= seq![255u8, 255u8, 255u8, 255u8]);
        r
    }
}

/// Decodes one 6-byte address record: the first four bytes are the octets in
/// order, the last two the port in big-endian order.
pub fn decode_address(b: &[u8]) -> (r: Address)
    requires
        b@.len() == ADDRESS_SIZE,
    ensures
        decodes_to(b@, r),
{
    let port: u16 = (b[4] as u16) * 256 + (b[5] as u16);
    let r = Address { ip: [b[0], b[1], b[2], b[3]], port };
    assert(r.ip@ =~= b@.subrange(0, 4));
    r
}

/// For every address, the record built from its octets and big-endian port
/// decodes to exactly those octets and that port.
pub proof fn lemma_address_round_trip(a: Address, r: Address)
    requires
        decodes_to(address_bytes(a), r),
    ensures
        r.ip@ == a.ip@,
        r.port == a.port,
{
    assert(address_bytes(a).subrange(0, 4) =~= a.ip@);
}

/// ASCII decimal digits of `n`, most significant first, without leading zeros.
pub open spec fn decimal(n: nat) -> Seq<u8>
    decreases n,
{
    if n < 10 {
        seq![(48 + n) as u8]
    } else {
        decimal(n / 10) + seq![(48 + n % 10) as u8]
    }
}

/// Appends the decimal rendering of `n` to `out`.
pub fn push_decimal(out: &mut Vec<u8>, n: u32)
    ensures
        final(out)@ == old(out)@ + decimal(n as nat),
    decreases n,
{
    if n >= 10 {
        push_decimal(out, n / 10);
    }
    out.push(48u8 + (n % 10) as u8);
    assert(final(out)@ =~= old(out)@ + decimal(n as nat));
}

/// Appends every byte of `bytes` to `out`, in order.
pub fn push_all(out: &mut Vec<u8>, bytes: &[u8])
    ensures
        final(out)@ == old(out)@ + bytes@,
{
    let mut i: usize = 0;
    while i < bytes.len()
        invariant
            i <= bytes@.len(),
            out@ == old(out)@ + bytes@.subrange(0, i as int),
        decreases bytes@.len() - i,
    {
        out.push(bytes[i]);
        i = i + 1;
        assert(out@ =~= old(out)@ + bytes@.subrange(0, i as int));
    }
    assert(bytes@.subrange(0, i as int) =~= bytes@);
}

/// Text form `a.b.c.d:port` of an address.
pub open spec fn address_text(a: Address) -> Seq<u8> {
    decimal(a.ip@[0] as nat) + seq![46u8] + decimal(a.ip@[1] as nat) + seq![46u8]
        + decimal(a.ip@[2] as nat) + seq![46u8] + decimal(a.ip@[3] as nat) + seq![58u8]
        + decimal(a.port as nat)
}

/// Appends the text form `a.b.c.d:port` of `a` to `out`.
pub fn push_address_text(out: &mut Vec<u8>, a: &Address)
    ensures
        final(out)@ == old(out)@ + address_text(*a),
{
    push_decimal(out, a.ip[0] as u32);
    out.push(46u8);
    push_decimal(out, a.ip[1] as u32);
    out.push(46u8);
    push_decimal(out, a.ip[2] as u32);
    out.push(46u8);
    push_decimal(out, a.ip[3] as u32);
    out.push(58u8);
    push_decimal(out, a.port as u32);
    assert(final(out)@ =~= old(out)@ + address_text(*a));
}

/// The value of a 32-bit two's complement integer stored big-endian in `b`.
pub open spec fn be_i32(b: Seq<u8>) -> int {
    let u = b[0] as int * 16777216 + b[1] as int * 65536 + b[2] as int * 256 + b[3] as int;
    if u >= 0x8000_0000 {
        u - 0x1_0000_0000
    } else {
        u
    }
}

/// The 4 big-endian bytes of the two's complement form of `c`.
pub open spec fn be_bytes(c: i32) -> Seq<u8> {
    let u: int = if c < 0 {
        c + 0x1_0000_0000
    } else {
        c as int
    };
    seq![(u / 16777216) as u8, (u / 65536 % 256) as u8, (u / 256 % 256) as u8, (u % 256) as u8]
}

/// Reads a big-endian signed 32-bit integer from exactly four bytes.
pub fn read_be_i32(b: &[u8]) -> (r: i32)
    requires
        b@.len() == 4,
    ensures
        r as int == be_i32(b@),
{
    let u: u32 = (b[0] as u32) * 16777216 + (b[1] as u32) * 65536 + (b[2] as u32) * 256
        + (b[3] as u32);
    if u >= 0x8000_0000 {
        let low: u32 = u - 0x8000_0000;
        (low as i32) - 0x7fff_ffff - 1
    } else {
        u as i32
    }
}

/// Appends the 4 big-endian bytes of `c` to `out`.
pub fn push_be_i32(out: &mut Vec<u8>, c: i32)
    ensures
        final(out)@ == old(out)@ + be_bytes(c),
{
    let u: u32 = if c < 0 {
        ((c as i64) + 0x1_0000_0000i64) as u32
    } else {
        c as u32
    };
    out.push((u / 16777216) as u8);
    out.push((u / 65536 % 256) as u8);
    out.push((u / 256 % 256) as u8);
    out.push((u % 256) as u8);
    assert(final(out)@ =~= old(out)@ + be_bytes(c));
}

/// Reading back the bytes written for a challenge gives the same challenge.
pub proof fn lemma_challenge_round_trip(c: i32)
    ensures
        be_bytes(c).len() == 4,
        be_i32(be_bytes(c)) == c as int,
{
    let u: int = if c < 0 {
        c + 0x1_0000_0000
    } else {
        c as int
    };
    assert(0 <= u < 0x1_0000_0000);
    let b = be_bytes(c);
    assert(b[0] as int == u / 16777216);
    assert(b[1] as int == u / 65536 % 256);
    assert(b[2] as int == u / 256 % 256);
    assert(b[3] as int == u % 256);
    assert(b[0] as int * 16777216 + b[1] as int * 65536 + b[2] as int * 256 + b[3] as int == u)
        by (nonlinear_arith)
        requires
            0 <= u < 0x1_0000_0000,
            b[0] as int == u / 16777216,
            b[1] as int == u / 65536 % 256,
            b[2] as int == u / 256 % 256,
            b[3] as int == u % 256,
    ;
}

} // verus!
