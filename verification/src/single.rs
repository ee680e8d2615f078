//! IEEE 754 binary32 values, held by their bit patterns.
//!
//! This module reads the bits: which value is a number and which is none,
//! how values compare, what the larger of two is and what a value clamped
//! to a range. All of that is exact, and is stated over the numbers that the
//! bit patterns denote. The arithmetic on the values is in `arith`.
use crate::ieee::{lemma_scaled_of_orders, lemma_scaled_of_zero, scaled_of};
use std::cmp::Ordering;
use vstd::arithmetic::div_mod::lemma_fundamental_div_mod_converse;
use vstd::arithmetic::power2::{lemma2_to64, pow2};
use vstd::prelude::*;
use vstd::std_specs::cmp::{PartialEqSpecImpl, PartialOrdSpecImpl};

verus! {

/// A binary32 value: one sign bit, eight exponent bits, twenty-three fraction bits.
#[derive(Clone, Copy, Debug)]
pub struct Single {
    pub bits: u32,
}

/// The bits of positive zero.
pub const ZERO: u32 = 0;

/// The bits of the number one.
pub const ONE: u32 = 0x3f80_0000;

/// The bits of the gap between one and the next larger value, two to the
/// power of minus 23.
pub const EPSILON: u32 = 0x3400_0000;

impl Single {
    /// All bits but the sign.
    pub open spec fn magnitude(self) -> nat {
        if self.bits >= 0x8000_0000 {
            (self.bits - 0x8000_0000) as nat
        } else {
            self.bits as nat
        }
    }

    /// The sign bit is set. This holds of negative zero and of half of the NaNs too.
    pub open spec fn negative(self) -> bool {
        self.bits >= 0x8000_0000
    }

    /// Not a number: the exponent field is all ones and the fraction is not zero.
    pub open spec fn nan(self) -> bool {
        self.magnitude() > 0x7f80_0000
    }

    /// Positive or negative infinity.
    pub open spec fn infinite(self) -> bool {
        self.magnitude() == 0x7f80_0000
    }

    /// Zero, subnormal or normal.
    pub open spec fn finite(self) -> bool {
        self.magnitude() < 0x7f80_0000
    }

    /// Positive or negative zero.
    pub open spec fn zero(self) -> bool {
        self.magnitude() == 0
    }

    /// The place of a value that is not NaN in the order of all such values:
    /// the magnitude, counted downwards from zero where the sign bit is set.
    /// The two zeros share a place.
    pub open spec fn rank(self) -> int {
        if self.negative() {
            -(self.magnitude() as int)
        } else {
            self.magnitude() as int
        }
    }

    /// The number that a finite value denotes, in units of two to the power of
    /// minus 149, the smallest positive binary32 value.
    pub open spec fn scaled(self) -> int {
        if self.negative() {
            -(scaled_of(self.magnitude(), 23) as int)
        } else {
            scaled_of(self.magnitude(), 23) as int
        }
    }

    /// `self < rhs` as IEEE 754 compares: false as soon as either side is NaN.
    pub open spec fn less(self, rhs: Single) -> bool {
        !self.nan() && !rhs.nan() && self.rank() < rhs.rank()
    }

    /// `self <= rhs` as IEEE 754 compares.
    pub open spec fn at_most(self, rhs: Single) -> bool {
        !self.nan() && !rhs.nan() && self.rank() <= rhs.rank()
    }

    /// `self == rhs` as IEEE 754 compares: NaN equals nothing, the zeros equal each other.
    pub open spec fn same_value(self, rhs: Single) -> bool {
        !self.nan() && !rhs.nan() && self.rank() == rhs.rank()
    }

    /// The value with the given bit pattern.
    pub fn from_bits(bits: u32) -> (r: Single)
        ensures
            r.bits == bits,
    {
        Single { bits }
    }

    /// The bit pattern of the value.
    pub fn to_bits(self) -> (r: u32)
        ensures
            r == self.bits,
    {
        self.bits
    }

    pub(crate) fn magnitude_bits(self) -> (r: u32)
        ensures
            r == self.magnitude(),
    {
        if self.bits >= 0x8000_0000 {
            self.bits - 0x8000_0000
        } else {
            self.bits
        }
    }

    /// Whether the value is NaN.
    pub fn is_nan(self) -> (r: bool)
        ensures
            r == self.nan(),
    {
        self.magnitude_bits() > 0x7f80_0000
    }

    /// Whether the value is zero, subnormal or normal.
    pub fn is_finite(self) -> (r: bool)
        ensures
            r == self.finite(),
    {
        self.magnitude_bits() < 0x7f80_0000
    }

    /// Whether the value is one of the two zeros.
    pub fn is_zero(self) -> (r: bool)
        ensures
            r == self.zero(),
    {
        self.magnitude_bits() == 0
    }

    /// Whether the sign bit is set.
    pub fn is_sign_negative(self) -> (r: bool)
        ensures
            r == self.negative(),
    {
        self.bits >= 0x8000_0000
    }

    /// `self < rhs`.
    pub fn lt(self, rhs: Single) -> (r: bool)
        ensures
            r == self.less(rhs),
    {
        if self.is_nan() || rhs.is_nan() {
            return false;
        }
        let a = self.magnitude_bits();
        let b = rhs.magnitude_bits();
        if self.is_sign_negative() {
            if rhs.is_sign_negative() {
                b < a
            } else {
                a > 0 || b > 0
            }
        } else {
            if rhs.is_sign_negative() {
                false
            } else {
                a < b
            }
        }
    }

    /// `self <= rhs`.
    pub fn le(self, rhs: Single) -> (r: bool)
        ensures
            r == self.at_most(rhs),
    {
        if self.is_nan() || rhs.is_nan() {
            return false;
        }
        !rhs.lt(self)
    }

    /// `self > rhs`.
    pub fn gt(self, rhs: Single) -> (r: bool)
        ensures
            r == rhs.less(self),
    {
        rhs.lt(self)
    }

    /// `self >= rhs`.
    pub fn ge(self, rhs: Single) -> (r: bool)
        ensures
            r == rhs.at_most(self),
    {
        rhs.le(self)
    }

    /// `self == rhs` by value.
    pub fn eq_value(self, rhs: Single) -> (r: bool)
        ensures
            r == self.same_value(rhs),
    {
        self.le(rhs) && rhs.le(self)
    }

    /// The value with the sign bit flipped: the exact negation.
    pub open spec fn negated(self) -> Single {
        if self.bits >= 0x8000_0000 {
            Single { bits: (self.bits - 0x8000_0000) as u32 }
        } else {
            Single { bits: (self.bits + 0x8000_0000) as u32 }
        }
    }

    /// The negation of the value. It is exact, and keeps a NaN a NaN.
    pub fn neg(self) -> (r: Single)
        ensures
            r == self.negated(),
            r.magnitude() == self.magnitude(),
            r.negative() == !self.negative(),
    {
        if self.bits >= 0x8000_0000 {
            Single { bits: self.bits - 0x8000_0000 }
        } else {
            Single { bits: self.bits + 0x8000_0000 }
        }
    }

    /// What `self.max(rhs)` is: the larger of the two, and the other one where
    /// one of them is NaN. Of two equal values the first is kept.
    pub open spec fn max_of(self, rhs: Single) -> Single {
        if self.nan() {
            rhs
        } else if self.less(rhs) {
            rhs
        } else {
            self
        }
    }

    /// What `self.min(rhs)` is: the smaller of the two, and the other one where
    /// one of them is NaN. Of two equal values the first is kept.
    pub open spec fn min_of(self, rhs: Single) -> Single {
        if self.nan() {
            rhs
        } else if rhs.less(self) {
            rhs
        } else {
            self
        }
    }

    /// The larger of two values, ignoring NaN.
    pub fn max(self, rhs: Single) -> (r: Single)
        ensures
            r == self.max_of(rhs),
    {
        if self.is_nan() {
            rhs
        } else if self.lt(rhs) {
            rhs
        } else {
            self
        }
    }

    /// The smaller of two values, ignoring NaN.
    pub fn min(self, rhs: Single) -> (r: Single)
        ensures
            r == self.min_of(rhs),
    {
        if self.is_nan() {
            rhs
        } else if rhs.lt(self) {
            rhs
        } else {
            self
        }
    }

    /// What `self.clamp_to(lo, hi)` is: `self` raised to `lo`, then lowered to `hi`.
    pub open spec fn clamped(self, lo: Single, hi: Single) -> Single {
        self.max_of(lo).min_of(hi)
    }

    /// Brings a value into `lo ..= hi`. A NaN comes out as `lo`.
    pub fn clamp_to(self, lo: Single, hi: Single) -> (r: Single)
        ensures
            r == self.clamped(lo, hi),
    {
        self.max(lo).min(hi)
    }
}

/// The order of the ranks is the order of the numbers denoted, and only the
/// two zeros are different patterns for one number.
pub proof fn lemma_rank_orders_numbers(a: Single, b: Single)
    ensures
        a.rank() < b.rank() <==> a.scaled() < b.scaled(),
        a.rank() == b.rank() <==> a.scaled() == b.scaled(),
{
    lemma_scaled_of_orders(a.magnitude(), b.magnitude(), 23);
    lemma_scaled_of_orders(0, a.magnitude(), 23);
    lemma_scaled_of_orders(0, b.magnitude(), 23);
    lemma_scaled_of_zero(23);
}

/// The number that a positive normal value denotes, from its exponent field
/// `e` and its fraction `f`.
pub proof fn lemma_scaled_normal(x: Single, e: nat, f: nat)
    requires
        x.bits == e * 0x80_0000 + f,
        1 <= e < 256,
        f < 0x80_0000,
    ensures
        x.scaled() == (0x80_0000 + f) * pow2((e - 1) as nat),
{
    lemma2_to64();
    let m = x.magnitude();
    assert(pow2(23) == 0x80_0000);
    lemma_fundamental_div_mod_converse(m as int, 0x80_0000, e as int, f as int);
}

/// Clamping lands in the interval, whatever went in, and leaves alone what was
/// in it already.
pub proof fn lemma_clamped_in_range(x: Single, lo: Single, hi: Single)
    requires
        lo.at_most(hi),
    ensures
        lo.at_most(x.clamped(lo, hi)),
        x.clamped(lo, hi).at_most(hi),
        lo.at_most(x) && x.at_most(hi) ==> x.clamped(lo, hi) == x,
        x.clamped(lo, hi) == x || x.clamped(lo, hi) == lo || x.clamped(lo, hi) == hi,
{
}

/// Clamping twice is clamping once.
pub proof fn lemma_clamped_idempotent(x: Single, lo: Single, hi: Single)
    requires
        lo.at_most(hi),
    ensures
        x.clamped(lo, hi).clamped(lo, hi) == x.clamped(lo, hi),
{
}

impl PartialEq for Single {
    fn eq(&self, other: &Self) -> (r: bool) {
        self.eq_value(*other)
    }
}

impl PartialEqSpecImpl for Single {
    open spec fn obeys_eq_spec() -> bool {
        true
    }

    open spec fn eq_spec(&self, other: &Self) -> bool {
        self.same_value(*other)
    }
}

impl PartialOrd for Single {
    fn partial_cmp(&self, other: &Self) -> (r: Option<Ordering>) {
        if self.is_nan() || other.is_nan() {
            None
        } else if Single::lt(*self, *other) {
            Some(Ordering::Less)
        } else if Single::lt(*other, *self) {
            Some(Ordering::Greater)
        } else {
            Some(Ordering::Equal)
        }
    }
}

impl PartialOrdSpecImpl for Single {
    open spec fn obeys_partial_cmp_spec() -> bool {
        true
    }

    open spec fn partial_cmp_spec(&self, other: &Self) -> Option<Ordering> {
        if self.nan() || other.nan() {
            None
        } else if self.less(*other) {
            Some(Ordering::Less)
        } else if other.less(*self) {
            Some(Ordering::Greater)
        } else {
            Some(Ordering::Equal)
        }
    }
}

} // verus!
