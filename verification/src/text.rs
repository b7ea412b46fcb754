//! Case conversion of names.

use vstd::prelude::*;

verus! {

/// The lowercase form of a string, as `str::to_lowercase` of the standard
/// library gives it.
pub uninterp spec fn lowercase_of(s: Seq<char>) -> Seq<char>;

/// The uppercase form of a string, as `str::to_uppercase` of the standard
/// library gives it.
pub uninterp spec fn uppercase_of(s: Seq<char>) -> Seq<char>;

/// Calls `str::to_lowercase`. Trusted: the result is the lowercase form of
/// the argument, a function of its characters alone.
#[verifier::external_body]
pub(crate) fn to_lowercase(s: &str) -> (r: String)
    ensures
        r@ == lowercase_of(s@),
{
    s.to_lowercase()
}

/// Calls `str::to_uppercase`. Trusted: the result is the uppercase form of
/// the argument, a function of its characters alone.
#[verifier::external_body]
pub(crate) fn to_uppercase(s: &str) -> (r: String)
    ensures
        r@ == uppercase_of(s@),
{
    s.to_uppercase()
}

} // verus!
