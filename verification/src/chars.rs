//! Character classes that come from the standard library.
use vstd::prelude::*;

verus! {

/// The Unicode `Alphabetic` property, as `char::is_alphabetic` tests it.
pub uninterp spec fn is_alphabetic(c: char) -> bool;

/// Tests the Unicode `Alphabetic` property (`char::is_alphabetic`).
#[verifier::external_body]
pub(crate) fn char_is_alphabetic(c: char) -> (b: bool)
    ensures
        b == is_alphabetic(c),
{
    c.is_alphabetic()
}

} // verus!
