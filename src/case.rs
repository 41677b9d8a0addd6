//! Identifier case conversions, as the heck crate performs them.

use vstd::prelude::*;

verus! {

/// What heck's `to_camel_case` returns for a string.
pub uninterp spec fn camel_case_of(s: Seq<char>) -> Seq<char>;

/// What heck's `to_mixed_case` returns for a string.
pub uninterp spec fn mixed_case_of(s: Seq<char>) -> Seq<char>;

/// Relies on heck's `CamelCase::to_camel_case` (0.3): its result depends on
/// the characters alone, and a string without words gives the empty string.
#[verifier::external_body]
pub(crate) fn to_camel_case(s: &str) -> (r: String)
    ensures
        r@ == camel_case_of(s@),
        s@.len() == 0 ==> r@.len() == 0,
{
    heck::CamelCase::to_camel_case(s)
}

/// Relies on heck's `MixedCase::to_mixed_case` (0.3): its result depends on
/// the characters alone, and a string without words gives the empty string.
#[verifier::external_body]
pub(crate) fn to_mixed_case(s: &str) -> (r: String)
    ensures
        r@ == mixed_case_of(s@),
        s@.len() == 0 ==> r@.len() == 0,
{
    heck::MixedCase::to_mixed_case(s)
}

/// A name in camel case, for the names of generated files.
pub fn camel_case(s: &str) -> (r: String)
    ensures
        r@ == camel_case_of(s@),
{
    to_camel_case(s)
}

} // verus!
