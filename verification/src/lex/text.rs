//! Conversions between bytes, code points and text, as std performs them.

use vstd::prelude::*;
use vstd::utf8::{is_scalar, valid_utf8, decode_utf8};

verus! {

/// Calls `std::char::from_u32`. Its documentation: it returns the `char` whose value is
/// `v` when `v` is a Unicode scalar value, and `None` otherwise. The contract claims
/// exactly that, with `is_scalar` from vstd as the notion of a scalar value.
#[verifier::external_body]
pub fn char_from_u32(v: u32) -> (r: Option<char>)
    ensures
        r is Some <==> is_scalar(v),
        r matches Some(c) ==> c as u32 == v,
{
    std::char::from_u32(v)
}

/// Calls `String::from_utf8`. Its documentation: it succeeds exactly when the bytes are
/// valid UTF-8, and the string then holds the characters that the bytes encode. The
/// contract claims that, with vstd's `valid_utf8` and `decode_utf8`; the error value is
/// dropped.
#[verifier::external_body]
pub fn string_from_utf8(bytes: Vec<u8>) -> (r: Option<String>)
    ensures
        r is Some <==> valid_utf8(bytes@),
        r matches Some(s) ==> s@ == decode_utf8(bytes@),
{
    String::from_utf8(bytes).ok()
}

} // verus!
