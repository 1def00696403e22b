//! Small operations on owned text that the scanner and the layout share.

use vstd::prelude::*;

verus! {

/// Calls `String::push`. Trusted: the character is appended at the end.
#[verifier::external_body]
pub(crate) fn push_char(s: &mut String, c: char)
    ensures
        final(s)@ == old(s)@.push(c),
{
    s.push(c)
}

/// Calls `char::is_alphanumeric`. Trusted: the result is the Unicode
/// property named by `alphanumeric`.
#[verifier::external_body]
pub(crate) fn char_is_alphanumeric(c: char) -> (b: bool)
    ensures
        b == alphanumeric(c),
{
    c.is_alphanumeric()
}

/// Calls `char::len_utf8`. Trusted: the number of bytes of the UTF-8
/// encoding, which grows at the code points 0x80, 0x800 and 0x10000.
#[verifier::external_body]
pub(crate) fn char_len_utf8(c: char) -> (n: usize)
    ensures
        n == utf8_len(c),
{
    c.len_utf8()
}

/// Bytes that the UTF-8 encoding of a character takes.
pub open spec fn utf8_len(c: char) -> nat {
    if (c as u32) < 0x80 {
        1
    } else if (c as u32) < 0x800 {
        2
    } else if (c as u32) < 0x10000 {
        3
    } else {
        4
    }
}

/// Whether Unicode classes a character as alphabetic or numeric.
pub uninterp spec fn alphanumeric(c: char) -> bool;

} // verus!
