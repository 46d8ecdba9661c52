//! Classes of characters, as the standard library draws them.

use vstd::prelude::*;

verus! {

/// Whether Unicode counts the character as alphabetic.
pub uninterp spec fn is_alphabetic(c: char) -> bool;

/// Whether Unicode counts the character as alphabetic or numeric.
pub uninterp spec fn is_alphanumeric(c: char) -> bool;

/// Whether Unicode counts the character as white space.
pub uninterp spec fn is_whitespace(c: char) -> bool;

/// The upper-case form of the character, which may take several characters.
pub uninterp spec fn uppercase(c: char) -> Seq<char>;

/// The lower-case form of the character, which may take several characters.
pub uninterp spec fn lowercase(c: char) -> Seq<char>;

/// `char::is_alphabetic`.
#[verifier::external_body]
pub(crate) fn char_is_alphabetic(c: char) -> (r: bool)
    ensures
        r == is_alphabetic(c),
{
    c.is_alphabetic()
}

/// `char::is_alphanumeric`.
#[verifier::external_body]
pub(crate) fn char_is_alphanumeric(c: char) -> (r: bool)
    ensures
        r == is_alphanumeric(c),
{
    c.is_alphanumeric()
}

/// `char::is_whitespace`.
#[verifier::external_body]
pub(crate) fn char_is_whitespace(c: char) -> (r: bool)
    ensures
        r == is_whitespace(c),
{
    c.is_whitespace()
}

/// `char::to_uppercase`, its characters collected.
#[verifier::external_body]
pub(crate) fn char_uppercase(c: char) -> (r: String)
    ensures
        r@ == uppercase(c),
{
    c.to_uppercase().collect()
}

/// `char::to_lowercase`, its characters collected.
#[verifier::external_body]
pub(crate) fn char_lowercase(c: char) -> (r: String)
    ensures
        r@ == lowercase(c),
{
    c.to_lowercase().collect()
}

} // verus!
