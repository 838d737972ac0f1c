//! Merge strategies for booleans.
use vstd::prelude::*;

verus! {

/// Overwrites `left` with `right` when `left` is `false`.
pub fn overwrite_false(left: &mut bool, right: bool)
    ensures
        *final(left) == if !*old(left) { right } else { *old(left) },
{
    if !*left {
        *left = right;
    }
}

/// Overwrites `left` with `right` when `left` is `true`.
pub fn overwrite_true(left: &mut bool, right: bool)
    ensures
        *final(left) == if *old(left) { right } else { *old(left) },
{
    if *left {
        *left = right;
    }
}

} // verus!
