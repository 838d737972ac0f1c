//! Merge strategies for totally ordered types.
use vstd::prelude::*;

use core::cmp::Ordering;
use vstd::std_specs::cmp::OrdSpec;

verus! {

/// Sets `left` to the greater of `left` and `right`; `left` wins ties.
pub fn max<T: Ord>(left: &mut T, right: T)
    ensures
        *final(left) == *old(left) || *final(left) == right,
        T::obeys_cmp_spec() ==> *final(left) == if (*old(left)).cmp_spec(&right) is Less {
            right
        } else {
            *old(left)
        },
{
    match T::cmp(left, &right) {
        Ordering::Less => *left = right,
        _ => {},
    }
}

/// Sets `left` to the lesser of `left` and `right`; `left` wins ties.
pub fn min<T: Ord>(left: &mut T, right: T)
    ensures
        *final(left) == *old(left) || *final(left) == right,
        T::obeys_cmp_spec() ==> *final(left) == if (*old(left)).cmp_spec(&right) is Greater {
            right
        } else {
            *old(left)
        },
{
    match T::cmp(left, &right) {
        Ordering::Greater => *left = right,
        _ => {},
    }
}

} // verus!
