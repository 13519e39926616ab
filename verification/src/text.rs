//! Comparison of texts.

use vstd::prelude::*;

verus! {

/// `str::eq` of std. Trusted: two texts are equal exactly when they hold
/// the same characters.
#[verifier::external_body]
pub(crate) fn same_text(one: &str, other: &str) -> (same: bool)
    ensures
        same == (one@ == other@),
{
    one == other
}

} // verus!
