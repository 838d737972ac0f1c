//! Merge strategies for vectors.
use vstd::prelude::*;

verus! {

/// The contents that `append` leaves: `left` followed by `right`.
pub open spec fn appended<T>(left: Seq<T>, right: Seq<T>) -> Seq<T> {
    left + right
}

/// The contents that `prepend` leaves: `right` followed by `left`.
pub open spec fn prepended<T>(left: Seq<T>, right: Seq<T>) -> Seq<T> {
    right + left
}

/// Overwrites `left` with `right` when `left` is empty.
pub fn overwrite_empty<T>(left: &mut Vec<T>, right: Vec<T>)
    ensures
        final(left)@ == if old(left)@.len() == 0 { right@ } else { old(left)@ },
{
    let mut right = right;
    if left.is_empty() {
        left.append(&mut right);
    }
}

/// Appends the elements of `right` after those of `left`, in order.
pub fn append<T>(left: &mut Vec<T>, right: Vec<T>)
    ensures
        final(left)@ == appended(old(left)@, right@),
{
    let mut right = right;
    left.append(&mut right);
}

/// Inserts the elements of `right` before those of `left`, in order.
pub fn prepend<T>(left: &mut Vec<T>, right: Vec<T>)
    ensures
        final(left)@ == prepended(old(left)@, right@),
{
    let mut right = right;
    right.append(left);
    *left = right;
}

/// Appending `right` to `left` gives what prepending `left` to `right` gives.
pub proof fn lemma_append_mirrors_prepend<T>(left: Seq<T>, right: Seq<T>)
    ensures
        appended(left, right) == prepended(right, left),
{
}

} // verus!
