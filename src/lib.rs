//! Merging of two values of one type into one, field by field.
//!
//! A type implements [`Merge`] when two of its values can be combined: the
//! left operand is updated in place and the right one is consumed. The
//! strategy modules give named merge policies for primitive and container
//! types, and [`codegen`] generates a field-by-field `Merge` implementation
//! for a record type from its declaration and its `merge` attributes.
//!
//! Optional values implement `Merge` themselves, with "first value wins":
//! a field without a strategy of its own, of type `Option<T>`, keeps its
//! value when it has one and takes the other's otherwise.
use vstd::prelude::*;

pub mod attrs;
pub mod bool;
pub mod codegen;
pub mod btreemap;
pub mod hashmap;
pub mod iter;
pub mod maps;
pub mod num;
pub mod option;
pub mod ord;
pub mod render;
pub mod syntax;
pub mod vec;

verus! {

/// A type whose values can be merged.
pub trait Merge: Sized {
    /// The value that merging `other` into `self` yields. Verified
    /// implementations state it; the default leaves it unspecified, so that
    /// no `merge` body can be proved against it.
    closed spec fn merged(self, other: Self) -> Self {
        arbitrary()
    }

    /// Merges `other` into `self`.
    fn merge(&mut self, other: Self)
        ensures
            *final(self) == old(self).merged(other),
    ;
}

/// An optional value keeps its own value when it has one: the left operand
/// takes precedence, and `other` is adopted only when `self` is empty.
impl<T> Merge for Option<T> {
    open spec fn merged(self, other: Self) -> Self {
        if self is None {
            other
        } else {
            self
        }
    }

    fn merge(&mut self, other: Self) {
        option::overwrite_none(self, other);
    }
}

/// Merging that hands the merged value back, for chaining several sources.
pub trait MergeFrom: Merge {
    /// Merges `other` into `self` and returns the result.
    fn merge_from(self, other: Self) -> (r: Self)
        ensures
            r == self.merged(other),
    ;
}

impl<T: Merge> MergeFrom for T {
    fn merge_from(self, other: Self) -> (r: Self) {
        let mut merged = self;
        merged.merge(other);
        merged
    }
}

/// Merging of three sources of decreasing precedence.
pub trait MergePrecedence: MergeFrom {
    /// Merges `medium` into `self`, then `low` into the result.
    fn merge_precedence(self, medium: Self, low: Self) -> (r: Self)
        ensures
            r == self.merged(medium).merged(low),
    ;
}

impl<T: MergeFrom> MergePrecedence for T {
    fn merge_precedence(self, medium: Self, low: Self) -> (r: Self) {
        let merged = self.merge_from(medium);
        merged.merge_from(low)
    }
}

} // verus!
