//! Merge strategies for optional values.
use vstd::prelude::*;

use crate::Merge;

verus! {

/// The result of `overwrite_with_some`: `right` when it holds a value.
pub open spec fn with_some<T>(left: Option<T>, right: Option<T>) -> Option<T> {
    if right is Some {
        right
    } else {
        left
    }
}

/// The result of `overwrite_none`: `right` when `left` is empty.
pub open spec fn unless_some<T>(left: Option<T>, right: Option<T>) -> Option<T> {
    if left is None {
        right
    } else {
        left
    }
}

/// The result of `recurse`: both values merged when both are present.
pub open spec fn recursed<T: Merge>(left: Option<T>, right: Option<T>) -> Option<T> {
    match (left, right) {
        (Some(l), Some(r)) => Some(l.merged(r)),
        (None, r) => r,
        (l, None) => l,
    }
}

/// Overwrites `left` with `right` when `right` holds a value.
pub fn overwrite_with_some<T>(left: &mut Option<T>, right: Option<T>)
    ensures
        *final(left) == with_some(*old(left), right),
{
    if right.is_some() {
        *left = right;
    }
}

/// Overwrites `left` with `right` only when `left` is empty.
pub fn overwrite_none<T>(left: &mut Option<T>, right: Option<T>)
    ensures
        *final(left) == unless_some(*old(left), right),
{
    if left.is_none() {
        *left = right;
    }
}

/// Merges the two values when both are present; otherwise keeps whichever
/// one is present, preferring `left`.
pub fn recurse<T: Merge>(left: &mut Option<T>, right: Option<T>)
    ensures
        *final(left) == recursed(*old(left), right),
{
    if let Some(new) = right {
        match left {
            Some(original) => original.merge(new),
            None => *left = Some(new),
        }
    }
}

/// Keeping an optional value against itself leaves it unchanged.
pub proof fn lemma_overwrite_none_idempotent<T>(value: Option<T>)
    ensures
        unless_some(value, value) == value,
{
}

} // verus!
