//! Conversions between byte buffers and strings, specified with vstd's
//! UTF-8 model (`valid_utf8`, `decode_utf8`, `encode_utf8`).

use vstd::prelude::*;

verus! {

use vstd::utf8::{
    valid_utf8, decode_utf8, encode_utf8, is_ascii_chars, is_ascii_chars_encode_utf8,
    encode_utf8_valid_utf8, encode_utf8_decode_utf8,
};
use vstd::string::StrSliceExecFns;

/// Relies on std::str::from_utf8: it succeeds exactly on valid UTF-8 input,
/// and the resulting string consists of the decoded characters of the input.
#[verifier::external_body]
pub fn utf8_to_string(v: &[u8]) -> (r: Option<String>)
    ensures
        r is Some <==> valid_utf8(v@),
        r matches Some(s) ==> s@ == decode_utf8(v@),
{
    match std::str::from_utf8(v) {
        Ok(s) => Some(s.to_string()),
        Err(_) => None,
    }
}

/// A sequence of bytes below 0x80 is valid UTF-8 and decodes byte by byte.
pub proof fn lemma_ascii_bytes_decode(b: Seq<u8>)
    requires
        forall|i: int| 0 <= i < b.len() ==> b[i] < 128,
    ensures
        valid_utf8(b),
        decode_utf8(b) == Seq::new(b.len(), |i: int| b[i] as char),
{
    let chars = Seq::new(b.len(), |i: int| b[i] as char);
    assert(is_ascii_chars(chars));
    is_ascii_chars_encode_utf8(chars);
    assert(encode_utf8(chars) =~= b);
    encode_utf8_valid_utf8(chars);
    encode_utf8_decode_utf8(chars);
}

/// Equality of two string slices, decided character by character.
pub fn str_eq_str(a: &str, b: &str) -> (r: bool)
    ensures
        r == (a@ == b@),
{
    let an = a.unicode_len();
    let bn = b.unicode_len();
    if an != bn {
        return false;
    }
    let mut i: usize = 0;
    while i < an
        invariant
            an == a@.len(),
            an == b@.len(),
            i <= an,
            forall|j: int| 0 <= j < i ==> a@[j] == b@[j],
        decreases an - i,
    {
        if a.get_char(i) != b.get_char(i) {
            return false;
        }
        i = i + 1;
    }
    proof {
        assert(a@ =~= b@);
    }
    true
}

/// Whether `p@` is a prefix of `s@`, decided character by character.
pub fn str_has_prefix(s: &str, p: &str) -> (r: bool)
    ensures
        r == (s@.len() >= p@.len() && s@.subrange(0, p@.len() as int) == p@),
{
    let sn = s.unicode_len();
    let pn = p.unicode_len();
    if sn < pn {
        return false;
    }
    let mut i: usize = 0;
    while i < pn
        invariant
            sn == s@.len(),
            pn == p@.len(),
            pn <= sn,
            i <= pn,
            forall|j: int| 0 <= j < i ==> s@[j] == p@[j],
        decreases pn - i,
    {
        if s.get_char(i) != p.get_char(i) {
            proof {
                assert(s@.subrange(0, pn as int)[i as int] != p@[i as int]);
            }
            return false;
        }
        i = i + 1;
    }
    proof {
        assert(s@.subrange(0, p@.len() as int) =~= p@);
    }
    true
}

/// The decimal digits of a non-negative number, as ASCII bytes, most
/// significant first.
pub open spec fn spec_dec_bytes(n: int) -> Seq<u8>
    recommends
        n >= 0,
    decreases n,
{
    if n < 10 {
        seq![(48 + n) as u8]
    } else {
        spec_dec_bytes(n / 10).push((48 + n % 10) as u8)
    }
}

/// Every decimal digit byte is ASCII.
pub proof fn lemma_dec_bytes_ascii(n: int)
    requires
        n >= 0,
    ensures
        forall|i: int| 0 <= i < spec_dec_bytes(n).len() ==> spec_dec_bytes(n)[i] < 128,
    decreases n,
{
    if n < 10 {
        assert(spec_dec_bytes(n)[0] == (48 + n) as u8);
    } else {
        lemma_dec_bytes_ascii(n / 10);
        let rec = spec_dec_bytes(n / 10);
        assert forall|i: int| 0 <= i < spec_dec_bytes(n).len() implies spec_dec_bytes(n)[i]
            < 128 by {
            if i < rec.len() {
                assert(spec_dec_bytes(n)[i] == rec[i]);
            } else {
                assert(spec_dec_bytes(n)[i] == (48 + n % 10) as u8);
            }
        }
    }
}

/// The decimal digits of `n`, as ASCII bytes.
pub fn dec_bytes_u16(n: u16) -> (r: Vec<u8>)
    ensures
        r@ == spec_dec_bytes(n as int),
    decreases n,
{
    if n < 10 {
        let mut v: Vec<u8> = Vec::new();
        v.push(48 + n as u8);
        proof {
            assert(v@ =~= spec_dec_bytes(n as int));
        }
        v
    } else {
        let mut v = dec_bytes_u16(n / 10);
        v.push(48 + (n % 10) as u8);
        v
    }
}

/// The decimal digits of `n`, as a string.
pub fn dec_string_u16(n: u16) -> (r: String)
    ensures
        r@ == decode_utf8(spec_dec_bytes(n as int)),
        valid_utf8(spec_dec_bytes(n as int)),
{
    let b = dec_bytes_u16(n);
    proof {
        lemma_dec_bytes_ascii(n as int);
        lemma_ascii_bytes_decode(b@);
    }
    match utf8_to_string(b.as_slice()) {
        Some(s) => s,
        None => {
            proof {
                assert(false);
            }
            String::new()
        },
    }
}

} // verus!
