//! Percent-decoding of query strings.  The decoding itself is done by an
//! outside crate; this module pins down exactly what that call returns, so
//! that pattern matching on the decoded bytes can be specified precisely.

use vstd::prelude::*;

verus! {

/// The value of an ASCII hex digit, if the byte is one.
pub open spec fn hex_val(b: u8) -> Option<u8> {
    if 48 <= b && b <= 57 {
        Some((b - 48) as u8)
    } else if 65 <= b && b <= 70 {
        Some((b - 55) as u8)
    } else if 97 <= b && b <= 102 {
        Some((b - 87) as u8)
    } else {
        None
    }
}

/// Percent-decoding over raw bytes: a `%` followed by two hex digits decodes
/// to the byte they spell; a `%` followed by one hex digit and a non-digit
/// keeps the `%` and the digit; any other `%` is kept as it stands; every
/// other byte is copied unchanged.  `+` is an ordinary byte, not a space.
pub open spec fn percent_decode(s: Seq<u8>) -> Seq<u8>
    decreases s.len(),
{
    if s.len() == 0 {
        Seq::empty()
    } else if s[0] != 37 {
        seq![s[0]] + percent_decode(s.skip(1))
    } else if s.len() < 3 {
        s
    } else {
        match (hex_val(s[1]), hex_val(s[2])) {
            (Some(h), Some(l)) => seq![(h * 16 + l) as u8] + percent_decode(s.skip(3)),
            (Some(_h), None) => seq![s[0], s[1]] + percent_decode(s.skip(2)),
            (None, _) => seq![s[0]] + percent_decode(s.skip(1)),
        }
    }
}

/// Relies on `urlencoding::decode_binary`: scanning left to right, each
/// `%XX` escape with two hex digits becomes the byte they spell, a `%X`
/// whose second character is not a hex digit passes `%X` through and rescans
/// from that character, a `%` not followed by a hex digit passes through and
/// rescans from the next character, a trailing short escape is copied
/// verbatim, and every other byte is copied unchanged.
#[verifier::external_body]
pub fn percent_decode_bytes(data: &[u8]) -> (r: Vec<u8>)
    ensures
        r@ == percent_decode(data@),
{
    urlencoding::decode_binary(data).into_owned()
}

} // verus!
