//! Comparing names.

use vstd::prelude::*;

verus! {

/// Compares two texts with `==` of `str`, which holds exactly when the two
/// are made of the same characters.
#[verifier::external_body]
pub(crate) fn same_text(a: &str, b: &str) -> (same: bool)
    ensures
        same == (a@ == b@),
{
    a == b
}

} // verus!
