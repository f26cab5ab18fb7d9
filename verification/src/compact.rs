//! Inline strings of the `compact_str` crate, and what this library relies on.

use vstd::prelude::*;

verus! {

/// `compact_str::CompactString`, the inline string that holds a cell's text.
#[verifier::external_type_specification]
#[verifier::external_body]
pub struct ExCompactString(compact_str::CompactString);

/// The characters that a `CompactString` holds, in order.
pub uninterp spec fn compact_chars(text: compact_str::CompactString) -> Seq<char>;

/// `CompactString::new("")`: a string without characters.
#[verifier::external_body]
pub(crate) fn compact_empty() -> (r: compact_str::CompactString)
    ensures
        compact_chars(r) == Seq::<char>::empty(),
{
    compact_str::CompactString::new("")
}

/// `CompactString::push`: appends one character at the end.
#[verifier::external_body]
pub(crate) fn compact_push(text: &mut compact_str::CompactString, ch: char)
    ensures
        compact_chars(*final(text)) == compact_chars(*old(text)).push(ch),
{
    text.push(ch);
}

/// `CompactString::as_str`: the same characters as a string slice.
#[verifier::external_body]
pub(crate) fn compact_text(text: &compact_str::CompactString) -> (r: &str)
    ensures
        r@ == compact_chars(*text),
{
    text.as_str()
}

/// `CompactString::is_empty`: whether the string has no characters.
#[verifier::external_body]
pub(crate) fn compact_is_empty(text: &compact_str::CompactString) -> (r: bool)
    ensures
        r == (compact_chars(*text).len() == 0),
{
    text.is_empty()
}

/// `CompactString::clone`: a string with the same characters.
#[verifier::external_body]
pub(crate) fn compact_clone(text: &compact_str::CompactString) -> (r: compact_str::CompactString)
    ensures
        compact_chars(r) == compact_chars(*text),
{
    text.clone()
}

/// `CompactString`'s `==`: whether two strings hold the same characters.
#[verifier::external_body]
pub(crate) fn compact_eq(
    left: &compact_str::CompactString,
    right: &compact_str::CompactString,
) -> (r: bool)
    ensures
        r == (compact_chars(*left) == compact_chars(*right)),
{
    left == right
}

} // verus!
