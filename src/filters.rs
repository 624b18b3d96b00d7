//! The master server's textual filter fragment.

use vstd::prelude::*;
use crate::codec::{decimal, push_all, push_decimal};

verus! {

/// Which servers a discovery run asks the master for.
#[derive(Clone, Copy, Debug, PartialEq, Eq, Structural)]
pub struct Filters {
    pub app_id: u32,
    pub no_password: bool,
}

/// The bytes of `\appid\`.
pub open spec fn appid_key() -> Seq<u8> {
    seq![92u8, 97u8, 112u8, 112u8, 105u8, 100u8, 92u8]
}

/// The bytes of `\password\0`.
pub open spec fn password_clause() -> Seq<u8> {
    seq![92u8, 112u8, 97u8, 115u8, 115u8, 119u8, 111u8, 114u8, 100u8, 92u8, 48u8]
}

/// The fragment text `\appid\<app_id>`, followed by `\password\0` when only
/// servers without a password are wanted.
pub open spec fn fragment(f: Filters) -> Seq<u8> {
    appid_key() + decimal(f.app_id as nat) + if f.no_password {
        password_clause()
    } else {
        Seq::<u8>::empty()
    }
}

/// Every byte of `s` is ASCII.
pub open spec fn is_ascii(s: Seq<u8>) -> bool {
    forall|i: int| 0 <= i < s.len() ==> s[i] < 128
}

/// The characters that the ASCII bytes `s` stand for.
pub open spec fn ascii_chars(s: Seq<u8>) -> Seq<char> {
    s.map_values(|b: u8| b as char)
}

proof fn lemma_decimal_ascii(n: nat)
    ensures
        is_ascii(decimal(n)),
    decreases n,
{
    if n >= 10 {
        lemma_decimal_ascii(n / 10);
    }
}

/// Relies on `String::from_utf8`: ASCII bytes are valid UTF-8, so it returns
/// `Ok` with the string whose characters are those bytes.
#[verifier::external_body]
fn ascii_string(bytes: Vec<u8>) -> (r: String)
    requires
        is_ascii(bytes@),
    ensures
        r@ == ascii_chars(bytes@),
{
    String::from_utf8(bytes).unwrap_or_default()
}

impl Filters {
    /// The fragment text as bytes, with no terminator.
    pub fn fragment_bytes(&self) -> (r: Vec<u8>)
        ensures
            r@ == fragment(*self),
    {
        let mut buf: Vec<u8> = Vec::new();
        let key: [u8; 7] = [92u8, 97u8, 112u8, 112u8, 105u8, 100u8, 92u8];
        push_all(&mut buf, &key);
        assert(key@ =~= appid_key());
        push_decimal(&mut buf, self.app_id);
        if self.no_password {
            let clause: [u8; 11] = [92u8, 112u8, 97u8, 115u8, 115u8, 119u8, 111u8, 114u8, 100u8, 92u8, 48u8];
            push_all(&mut buf, &clause);
            assert(clause@ =~= password_clause());
        }
        assert(buf@ =~= fragment(*self));
        buf
    }

    /// The standalone byte form: the fragment followed by one NUL.
    pub fn as_bytes(&self) -> (r: Vec<u8>)
        ensures
            r@ == fragment(*self).push(0u8),
    {
        let mut buf = self.fragment_bytes();
        buf.push(0u8);
        buf
    }

    /// The string form: the fragment with no terminator, for a packet segment
    /// that the caller terminates itself.
    pub fn as_string(&self) -> (r: String)
        ensures
            r@ == ascii_chars(fragment(*self)),
    {
        let buf = self.fragment_bytes();
        proof {
            lemma_decimal_ascii(self.app_id as nat);
            assert(is_ascii(buf@));
        }
        ascii_string(buf)
    }
}

} // verus!
