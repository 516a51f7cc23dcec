//! The few places where the library leans on std functions that carry no
//! specification here: decoding a `&str` into its characters, growing a
//! `String` by one character, and the Unicode-alphabetic test.

use vstd::prelude::*;

use crate::model::alphabetic;

verus! {

/// Relies on str::chars (with collect): the characters of the string, in
/// order; exactly the view of the `&str`.
#[verifier::external_body]
pub(crate) fn str_chars(source: &str) -> (v: Vec<char>)
    ensures
        v@ == source@,
{
    source.chars().collect()
}

/// Relies on String::push: appends the one character to the end.
#[verifier::external_body]
pub(crate) fn push_char(s: &mut String, c: char)
    ensures
        final(s)@ == old(s)@.push(c),
{
    s.push(c)
}

/// Relies on char::is_alphabetic: whether the character has the Unicode
/// Alphabetic property, a function of the character alone.
#[verifier::external_body]
pub(crate) fn char_is_alphabetic(c: char) -> (r: bool)
    ensures
        r == alphabetic(c),
{
    c.is_alphabetic()
}

} // verus!
