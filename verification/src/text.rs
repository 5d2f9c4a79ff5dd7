//! String helpers shared by the permission modules.

use vstd::prelude::*;

verus! {

/// Equality of string slices, as `str`'s `PartialEq` decides it: the result
/// is true exactly when both slices hold the same characters.
#[verifier::external_body]
pub(crate) fn same_text(a: &str, b: &str) -> (same: bool)
    ensures
        same == (a@ == b@),
{
    a == b
}

} // verus!
