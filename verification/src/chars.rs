//! What this library takes from the standard library's characters and strings without
//! proof. Everything else in the library is proved from these few statements.

use vstd::prelude::*;

verus! {

/// Whether Unicode counts `c` as a letter or a number, as `char::is_alphanumeric` tells.
pub uninterp spec fn unicode_alphanumeric(c: char) -> bool;

/// `char::is_alphanumeric`: whether the character is alphabetic or numeric in Unicode's
/// character tables. The answer depends on the character alone.
#[verifier::external_body]
pub(crate) fn is_alphanumeric(c: char) -> (b: bool)
    ensures
        b == unicode_alphanumeric(c),
{
    c.is_alphanumeric()
}

/// Whether a number is a Unicode scalar value, that is, a possible `char`.
pub open spec fn is_scalar(code: int) -> bool {
    0 <= code < 0xD800 || 0xE000 <= code <= 0x10FFFF
}

/// `char::from_u32` gives the character with the given scalar value, and `None` for a
/// number that is a surrogate or lies above `0x10FFFF`.
pub assume_specification[ char::from_u32 ](i: u32) -> (r: Option<char>)
    ensures
        is_scalar(i as int) ==> r == Some(i as char) && r->0 as u32 == i,
        !is_scalar(i as int) ==> r is None,
;

/// `String::push` appends one character to the end of the string.
pub assume_specification[ std::string::String::push ](s: &mut std::string::String, ch: char)
    ensures
        final(s)@ == old(s)@.push(ch),
;

} // verus!
