//! IEEE 754 binary64 values, held by their bit patterns.
//!
//! The simulation clock and the cooldown are binary64 values. This module
//! reads their bits and compares them; the arithmetic on them is in
//! `arith64`.
use crate::ieee::{lemma_scaled_of_orders, lemma_scaled_of_zero, scaled_of};
use std::cmp::Ordering;
use vstd::prelude::*;
use vstd::std_specs::cmp::{PartialEqSpecImpl, PartialOrdSpecImpl};

verus! {

/// A binary64 value: one sign bit, eleven exponent bits, fifty-two fraction bits.
#[derive(Clone, Copy, Debug)]
pub struct Double {
    pub bits: u64,
}

impl Double {
    /// All bits but the sign.
    pub open spec fn magnitude(self) -> nat {
        if self.bits >= 0x8000_0000_0000_0000 {
            (self.bits - 0x8000_0000_0000_0000) as nat
        } else {
            self.bits as nat
        }
    }

    /// The sign bit is set. This holds of negative zero and of half of the NaNs too.
    pub open spec fn negative(self) -> bool {
        self.bits >= 0x8000_0000_0000_0000
    }

    /// Not a number: the exponent field is all ones and the fraction is not zero.
    pub open spec fn nan(self) -> bool {
        self.magnitude() > 0x7ff0_0000_0000_0000
    }

    /// Positive or negative infinity.
    pub open spec fn infinite(self) -> bool {
        self.magnitude() == 0x7ff0_0000_0000_0000
    }

    /// Zero, subnormal or normal.
    pub open spec fn finite(self) -> bool {
        self.magnitude() < 0x7ff0_0000_0000_0000
    }

    /// Positive or negative zero.
    pub open spec fn zero(self) -> bool {
        self.magnitude() == 0
    }

    /// The place of a value that is not NaN in the order of all such values:
    /// the magnitude, counted downwards from zero where the sign bit is set.
    /// The two zeros share a place.
    pub open spec fn rank(self) -> int {
        if self.negative() {
            -(self.magnitude() as int)
        } else {
            self.magnitude() as int
        }
    }

    /// The number that a finite value denotes, in units of two to the power of
    /// minus 1074, the smallest positive binary64 value.
    pub open spec fn scaled(self) -> int {
        if self.negative() {
            -(scaled_of(self.magnitude(), 52) as int)
        } else {
            scaled_of(self.magnitude(), 52) as int
        }
    }

    /// `self < rhs` as IEEE 754 compares: false as soon as either side is NaN.
    pub open spec fn less(self, rhs: Double) -> bool {
        !self.nan() && !rhs.nan() && self.rank() < rhs.rank()
    }

    /// `self <= rhs` as IEEE 754 compares.
    pub open spec fn at_most(self, rhs: Double) -> bool {
        !self.nan() && !rhs.nan() && self.rank() <= rhs.rank()
    }

    /// `self == rhs` as IEEE 754 compares: NaN equals nothing, the zeros equal each other.
    pub open spec fn same_value(self, rhs: Double) -> bool {
        !self.nan() && !rhs.nan() && self.rank() == rhs.rank()
    }

    /// The value with the given bit pattern.
    pub fn from_bits(bits: u64) -> (r: Double)
        ensures
            r.bits == bits,
    {
        Double { bits }
    }

    /// The bit pattern of the value.
    pub fn to_bits(self) -> (r: u64)
        ensures
            r == self.bits,
    {
        self.bits
    }

    pub(crate) fn magnitude_bits(self) -> (r: u64)
        ensures
            r == self.magnitude(),
    {
        if self.bits >= 0x8000_0000_0000_0000 {
            self.bits - 0x8000_0000_0000_0000
        } else {
            self.bits
        }
    }

    /// Whether the value is NaN.
    pub fn is_nan(self) -> (r: bool)
        ensures
            r == self.nan(),
    {
        self.magnitude_bits() > 0x7ff0_0000_0000_0000
    }

    /// Whether the value is zero, subnormal or normal.
    pub fn is_finite(self) -> (r: bool)
        ensures
            r == self.finite(),
    {
        self.magnitude_bits() < 0x7ff0_0000_0000_0000
    }

    /// Whether the value is one of the two zeros.
    pub fn is_zero(self) -> (r: bool)
        ensures
            r == self.zero(),
    {
        self.magnitude_bits() == 0
    }

    /// Whether the sign bit is set.
    pub fn is_sign_negative(self) -> (r: bool)
        ensures
            r == self.negative(),
    {
        self.bits >= 0x8000_0000_0000_0000
    }

    /// The value with the sign bit flipped: the exact negation.
    pub open spec fn negated(self) -> Double {
        if self.bits >= 0x8000_0000_0000_0000 {
            Double { bits: (self.bits - 0x8000_0000_0000_0000) as u64 }
        } else {
            Double { bits: (self.bits + 0x8000_0000_0000_0000) as u64 }
        }
    }

    /// The negation of the value. It is exact, and keeps a NaN a NaN.
    pub fn neg(self) -> (r: Double)
        ensures
            r == self.negated(),
    {
        if self.bits >= 0x8000_0000_0000_0000 {
            Double { bits: self.bits - 0x8000_0000_0000_0000 }
        } else {
            Double { bits: self.bits + 0x8000_0000_0000_0000 }
        }
    }

    /// `self < rhs`.
    pub fn lt(self, rhs: Double) -> (r: bool)
        ensures
            r == self.less(rhs),
    {
        if self.is_nan() || rhs.is_nan() {
            return false;
        }
        let a = self.magnitude_bits();
        let b = rhs.magnitude_bits();
        if self.is_sign_negative() {
            if rhs.is_sign_negative() {
                b < a
            } else {
                a > 0 || b > 0
            }
        } else {
            if rhs.is_sign_negative() {
                false
            } else {
                a < b
            }
        }
    }

    /// `self <= rhs`.
    pub fn le(self, rhs: Double) -> (r: bool)
        ensures
            r == self.at_most(rhs),
    {
        if self.is_nan() || rhs.is_nan() {
            return false;
        }
        !rhs.lt(self)
    }

    /// `self > rhs`.
    pub fn gt(self, rhs: Double) -> (r: bool)
        ensures
            r == rhs.less(self),
    {
        rhs.lt(self)
    }

    /// `self >= rhs`.
    pub fn ge(self, rhs: Double) -> (r: bool)
        ensures
            r == rhs.at_most(self),
    {
        rhs.le(self)
    }

    /// `self == rhs` by value.
    pub fn eq_value(self, rhs: Double) -> (r: bool)
        ensures
            r == self.same_value(rhs),
    {
        self.le(rhs) && rhs.le(self)
    }
}

/// The order of the ranks is the order of the numbers denoted, and only the
/// two zeros are different patterns for one number.
pub proof fn lemma_rank_orders_numbers(a: Double, b: Double)
    ensures
        a.rank() < b.rank() <==> a.scaled() < b.scaled(),
        a.rank() == b.rank() <==> a.scaled() == b.scaled(),
{
    lemma_scaled_of_orders(a.magnitude(), b.magnitude(), 52);
    lemma_scaled_of_orders(0, a.magnitude(), 52);
    lemma_scaled_of_orders(0, b.magnitude(), 52);
    lemma_scaled_of_zero(52);
}

impl PartialEq for Double {
    fn eq(&self, other: &Self) -> (r: bool) {
        self.eq_value(*other)
    }
}

impl PartialEqSpecImpl for Double {
    open spec fn obeys_eq_spec() -> bool {
        true
    }

    open spec fn eq_spec(&self, other: &Self) -> bool {
        self.same_value(*other)
    }
}

impl PartialOrd for Double {
    fn partial_cmp(&self, other: &Self) -> (r: Option<Ordering>) {
        if self.is_nan() || other.is_nan() {
            None
        } else if Double::lt(*self, *other) {
            Some(Ordering::Less)
        } else if Double::lt(*other, *self) {
            Some(Ordering::Greater)
        } else {
            Some(Ordering::Equal)
        }
    }
}

impl PartialOrdSpecImpl for Double {
    open spec fn obeys_partial_cmp_spec() -> bool {
        true
    }

    open spec fn partial_cmp_spec(&self, other: &Self) -> Option<Ordering> {
        if self.nan() || other.nan() {
            None
        } else if self.less(*other) {
            Some(Ordering::Less)
        } else if other.less(*self) {
            Some(Ordering::Greater)
        } else {
            Some(Ordering::Equal)
        }
    }
}

} // verus!
