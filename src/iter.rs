//! Merge strategies for collections that can be extended.
use vstd::prelude::*;

verus! {

/// Extends `left` with the elements of `right`, in order.
pub fn extend<A>(left: &mut Vec<A>, right: Vec<A>)
    ensures
        final(left)@ == old(left)@ + right@,
{
    let mut right = right;
    left.append(&mut right);
}

} // verus!
