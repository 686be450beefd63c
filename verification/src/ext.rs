//! Small trusted bridges to std for character and string conversion.
use vstd::prelude::*;

verus! {

/// Relies on char::from_u32: every code point outside the surrogate range
/// and at most 0x10FFFF names exactly one char with that code.
#[verifier::external_body]
pub(crate) fn char_from_code(u: u32) -> (c: char)
    requires
        u < 0xD800 || (0xE000 <= u <= 0x10FFFF),
    ensures
        c == (u as char),
{
    char::from_u32(u).unwrap()
}

/// Relies on String's FromIterator impl: collecting chars yields the string
/// holding exactly those chars in order.
#[verifier::external_body]
pub(crate) fn chars_to_string(v: &Vec<char>) -> (s: String)
    ensures
        s@ == v@,
{
    v.iter().collect()
}

} // verus!
