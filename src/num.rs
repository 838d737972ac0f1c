//! Merge strategies for numeric types.
use vstd::prelude::*;

verus! {

/// Addition that stops at the largest value of the type instead of overflowing.
pub trait SaturatingAdd: Sized {
    /// The sum of `self` and `other`, or the type's largest value where the
    /// sum would exceed it.
    spec fn spec_saturating_add(self, other: Self) -> Self;

    fn saturating_add(&self, other: &Self) -> (r: Self)
        ensures
            r == self.spec_saturating_add(*other),
    ;
}

/// Types with a zero value.
pub trait Zero: Sized {
    /// Whether `self` is the zero value.
    spec fn spec_is_zero(self) -> bool;

    fn is_zero(&self) -> (r: bool)
        ensures
            r == self.spec_is_zero(),
    ;
}

impl SaturatingAdd for u8 {
    open spec fn spec_saturating_add(self, other: u8) -> u8 {
        if self + other > u8::MAX {
            u8::MAX
        } else {
            (self + other) as u8
        }
    }

    fn saturating_add(&self, other: &u8) -> (r: u8) {
        u8::saturating_add(*self, *other)
    }
}

impl Zero for u8 {
    open spec fn spec_is_zero(self) -> bool {
        self == 0
    }

    fn is_zero(&self) -> (r: bool) {
        *self == 0
    }
}

impl SaturatingAdd for u16 {
    open spec fn spec_saturating_add(self, other: u16) -> u16 {
        if self + other > u16::MAX {
            u16::MAX
        } else {
            (self + other) as u16
        }
    }

    fn saturating_add(&self, other: &u16) -> (r: u16) {
        u16::saturating_add(*self, *other)
    }
}

impl Zero for u16 {
    open spec fn spec_is_zero(self) -> bool {
        self == 0
    }

    fn is_zero(&self) -> (r: bool) {
        *self == 0
    }
}

impl SaturatingAdd for u32 {
    open spec fn spec_saturating_add(self, other: u32) -> u32 {
        if self + other > u32::MAX {
            u32::MAX
        } else {
            (self + other) as u32
        }
    }

    fn saturating_add(&self, other: &u32) -> (r: u32) {
        u32::saturating_add(*self, *other)
    }
}

impl Zero for u32 {
    open spec fn spec_is_zero(self) -> bool {
        self == 0
    }

    fn is_zero(&self) -> (r: bool) {
        *self == 0
    }
}

impl SaturatingAdd for u64 {
    open spec fn spec_saturating_add(self, other: u64) -> u64 {
        if self + other > u64::MAX {
            u64::MAX
        } else {
            (self + other) as u64
        }
    }

    fn saturating_add(&self, other: &u64) -> (r: u64) {
        u64::saturating_add(*self, *other)
    }
}

impl Zero for u64 {
    open spec fn spec_is_zero(self) -> bool {
        self == 0
    }

    fn is_zero(&self) -> (r: bool) {
        *self == 0
    }
}

impl SaturatingAdd for u128 {
    open spec fn spec_saturating_add(self, other: u128) -> u128 {
        if self + other > u128::MAX {
            u128::MAX
        } else {
            (self + other) as u128
        }
    }

    fn saturating_add(&self, other: &u128) -> (r: u128) {
        u128::saturating_add(*self, *other)
    }
}

impl Zero for u128 {
    open spec fn spec_is_zero(self) -> bool {
        self == 0
    }

    fn is_zero(&self) -> (r: bool) {
        *self == 0
    }
}

impl SaturatingAdd for usize {
    open spec fn spec_saturating_add(self, other: usize) -> usize {
        if self + other > usize::MAX {
            usize::MAX
        } else {
            (self + other) as usize
        }
    }

    fn saturating_add(&self, other: &usize) -> (r: usize) {
        usize::saturating_add(*self, *other)
    }
}

impl Zero for usize {
    open spec fn spec_is_zero(self) -> bool {
        self == 0
    }

    fn is_zero(&self) -> (r: bool) {
        *self == 0
    }
}

/// Sets `left` to the saturating sum of `left` and `right`.
pub fn saturating_add<T: SaturatingAdd>(left: &mut T, right: T)
    ensures
        *final(left) == old(left).spec_saturating_add(right),
{
    *left = SaturatingAdd::saturating_add(&*left, &right);
}

/// Overwrites `left` with `right` when `left` is zero.
pub fn overwrite_zero<T: Zero>(left: &mut T, right: T)
    ensures
        *final(left) == if old(left).spec_is_zero() { right } else { *old(left) },
{
    if left.is_zero() {
        *left = right;
    }
}

} // verus!
