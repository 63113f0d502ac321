//! Text helpers on top of std's `str` and `String`.

use vstd::prelude::*;

verus! {

/// Compares two strings with std's `==` on `str`, which holds exactly when
/// both hold the same characters in the same order.
#[verifier::external_body]
pub(crate) fn str_eq(a: &str, b: &str) -> (r: bool)
    ensures
        r == (a@ == b@),
{
    a == b
}

/// Appends one character with std's `String::push`, which adds it to the end
/// of the string.
#[verifier::external_body]
pub(crate) fn push_char(s: &mut String, c: char)
    ensures
        final(s)@ == old(s)@.push(c),
{
    s.push(c)
}

} // verus!
