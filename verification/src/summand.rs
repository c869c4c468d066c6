//! The numbers that a tree can hold: copyable values with an additive identity
//! and an in-place addition, each standing for a mathematical integer.

use vstd::prelude::*;

verus! {

/// A number that can be accumulated in a tree.
///
/// Contracts speak of the integer that a value stands for, so that sums are
/// stated over `int` and an addition that would leave the type is ruled out by
/// a precondition instead of wrapping around. The primitive integer types
/// implement the trait below.
///
/// A tree totals its nodes span by span, not position by position. For
/// integers the order makes no difference. A type whose addition rounds has no
/// integer to stand for; an implementation for one lies outside what is proved
/// here, and its sums may differ in rounding from a left-to-right total.
pub trait Summand: Copy {
    /// The integer that this value stands for.
    spec fn value(self) -> int;

    /// Whether the type has a value that stands for `v`.
    spec fn fits(v: int) -> bool;

    /// Every value stands for an integer that fits.
    proof fn lemma_value_fits(a: Self)
        ensures
            Self::fits(a.value()),
    ;

    /// Values that stand for the same integer are equal.
    proof fn lemma_value_injective(a: Self, b: Self)
        requires
            a.value() == b.value(),
        ensures
            a == b,
    ;

    /// The additive identity.
    fn identity() -> (z: Self)
        ensures
            z.value() == 0,
    ;

    /// Adds `x` to this value in place.
    fn accumulate(&mut self, x: Self)
        requires
            Self::fits(old(self).value() + x.value()),
        ensures
            final(self).value() == old(self).value() + x.value(),
    ;
}

impl Summand for i8 {
    open spec fn value(self) -> int {
        self as int
    }

    open spec fn fits(v: int) -> bool {
        i8::MIN <= v <= i8::MAX
    }

    proof fn lemma_value_fits(a: Self) {
    }

    proof fn lemma_value_injective(a: Self, b: Self) {
    }

    fn identity() -> (z: Self) {
        0
    }

    fn accumulate(&mut self, x: Self) {
        *self += x;
    }
}

impl Summand for i16 {
    open spec fn value(self) -> int {
        self as int
    }

    open spec fn fits(v: int) -> bool {
        i16::MIN <= v <= i16::MAX
    }

    proof fn lemma_value_fits(a: Self) {
    }

    proof fn lemma_value_injective(a: Self, b: Self) {
    }

    fn identity() -> (z: Self) {
        0
    }

    fn accumulate(&mut self, x: Self) {
        *self += x;
    }
}

impl Summand for i32 {
    open spec fn value(self) -> int {
        self as int
    }

    open spec fn fits(v: int) -> bool {
        i32::MIN <= v <= i32::MAX
    }

    proof fn lemma_value_fits(a: Self) {
    }

    proof fn lemma_value_injective(a: Self, b: Self) {
    }

    fn identity() -> (z: Self) {
        0
    }

    fn accumulate(&mut self, x: Self) {
        *self += x;
    }
}

impl Summand for i64 {
    open spec fn value(self) -> int {
        self as int
    }

    open spec fn fits(v: int) -> bool {
        i64::MIN <= v <= i64::MAX
    }

    proof fn lemma_value_fits(a: Self) {
    }

    proof fn lemma_value_injective(a: Self, b: Self) {
    }

    fn identity() -> (z: Self) {
        0
    }

    fn accumulate(&mut self, x: Self) {
        *self += x;
    }
}

impl Summand for i128 {
    open spec fn value(self) -> int {
        self as int
    }

    open spec fn fits(v: int) -> bool {
        i128::MIN <= v <= i128::MAX
    }

    proof fn lemma_value_fits(a: Self) {
    }

    proof fn lemma_value_injective(a: Self, b: Self) {
    }

    fn identity() -> (z: Self) {
        0
    }

    fn accumulate(&mut self, x: Self) {
        *self += x;
    }
}

impl Summand for isize {
    open spec fn value(self) -> int {
        self as int
    }

    open spec fn fits(v: int) -> bool {
        isize::MIN <= v <= isize::MAX
    }

    proof fn lemma_value_fits(a: Self) {
    }

    proof fn lemma_value_injective(a: Self, b: Self) {
    }

    fn identity() -> (z: Self) {
        0
    }

    fn accumulate(&mut self, x: Self) {
        *self += x;
    }
}

impl Summand for u8 {
    open spec fn value(self) -> int {
        self as int
    }

    open spec fn fits(v: int) -> bool {
        u8::MIN <= v <= u8::MAX
    }

    proof fn lemma_value_fits(a: Self) {
    }

    proof fn lemma_value_injective(a: Self, b: Self) {
    }

    fn identity() -> (z: Self) {
        0
    }

    fn accumulate(&mut self, x: Self) {
        *self += x;
    }
}

impl Summand for u16 {
    open spec fn value(self) -> int {
        self as int
    }

    open spec fn fits(v: int) -> bool {
        u16::MIN <= v <= u16::MAX
    }

    proof fn lemma_value_fits(a: Self) {
    }

    proof fn lemma_value_injective(a: Self, b: Self) {
    }

    fn identity() -> (z: Self) {
        0
    }

    fn accumulate(&mut self, x: Self) {
        *self += x;
    }
}

impl Summand for u32 {
    open spec fn value(self) -> int {
        self as int
    }

    open spec fn fits(v: int) -> bool {
        u32::MIN <= v <= u32::MAX
    }

    proof fn lemma_value_fits(a: Self) {
    }

    proof fn lemma_value_injective(a: Self, b: Self) {
    }

    fn identity() -> (z: Self) {
        0
    }

    fn accumulate(&mut self, x: Self) {
        *self += x;
    }
}

impl Summand for u64 {
    open spec fn value(self) -> int {
        self as int
    }

    open spec fn fits(v: int) -> bool {
        u64::MIN <= v <= u64::MAX
    }

    proof fn lemma_value_fits(a: Self) {
    }

    proof fn lemma_value_injective(a: Self, b: Self) {
    }

    fn identity() -> (z: Self) {
        0
    }

    fn accumulate(&mut self, x: Self) {
        *self += x;
    }
}

impl Summand for u128 {
    open spec fn value(self) -> int {
        self as int
    }

    open spec fn fits(v: int) -> bool {
        u128::MIN <= v <= u128::MAX
    }

    proof fn lemma_value_fits(a: Self) {
    }

    proof fn lemma_value_injective(a: Self, b: Self) {
    }

    fn identity() -> (z: Self) {
        0
    }

    fn accumulate(&mut self, x: Self) {
        *self += x;
    }
}

impl Summand for usize {
    open spec fn value(self) -> int {
        self as int
    }

    open spec fn fits(v: int) -> bool {
        usize::MIN <= v <= usize::MAX
    }

    proof fn lemma_value_fits(a: Self) {
    }

    proof fn lemma_value_injective(a: Self, b: Self) {
    }

    fn identity() -> (z: Self) {
        0
    }

    fn accumulate(&mut self, x: Self) {
        *self += x;
    }
}

} // verus!
