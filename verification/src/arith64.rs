//! Arithmetic on binary64 values, as far as the clock needs it: sum,
//! difference and product, each the exact result rounded to the nearest
//! value that the format holds, and the conversion to binary32.
use crate::ieee::{lemma_scaled_of_increases, lemma_scaled_of_zero};
use crate::double::Double;
use crate::rounding::{power_of_two, stands_for};
use crate::rounding64::{lemma_rounds_to_unique, round_pack, rounds_to, units, INFINITY};
use crate::single::Single;
use vstd::arithmetic::div_mod::*;
use vstd::arithmetic::power2::*;
use vstd::prelude::*;

verus! {

/// The bits of the NaN that an operation without a result gives.
pub const NAN: u64 = 0x7ff8_0000_0000_0000;

/// The magnitude that the number `n / d` rounds to.
pub open spec fn rounded(n: int, d: int) -> nat {
    choose|m: nat| rounds_to(m, n, d)
}

/// What is found to be the rounding of a number is the rounding of it.
pub proof fn lemma_rounded(m: nat, n: int, d: int)
    requires
        d > 0,
        rounds_to(m, n, d),
    ensures
        rounded(n, d) == m,
{
    lemma_rounds_to_unique(m, rounded(n, d), n, d);
}

/// A number that the format holds rounds to itself.
pub proof fn lemma_rounded_exact(m: nat, d: int)
    requires
        d > 0,
        m <= INFINITY,
    ensures
        rounds_to(m, units(m) * d, d),
        rounded(units(m) * d, d) == m,
{
    let here = units(m) as int;
    let n = here * d;
    if m > 0 {
        let below = units((m - 1) as nat) as int;
        lemma_scaled_of_increases((m - 1) as nat, m, 52);
        assert((below + here) * d < 2 * n) by (nonlinear_arith)
            requires
                n == here * d,
                below < here,
                d > 0,
        ;
    }
    let above = units(m + 1) as int;
    lemma_scaled_of_increases(m, m + 1, 52);
    assert(2 * n < (here + above) * d) by (nonlinear_arith)
        requires
            n == here * d,
            here < above,
            d > 0,
    ;
    lemma_rounded(m, n, d);
}

/// The value with the given sign and magnitude.
pub open spec fn signed(negative: bool, magnitude: nat) -> Double {
    Double {
        bits: if negative {
            (magnitude + 0x8000_0000_0000_0000) as u64
        } else {
            magnitude as u64
        },
    }
}

fn with_sign(negative: bool, magnitude: u64) -> (r: Double)
    requires
        magnitude < 0x8000_0000_0000_0000,
    ensures
        r == signed(negative, magnitude as nat),
        r.magnitude() == magnitude,
        r.negative() == negative,
{
    if negative {
        Double { bits: magnitude + 0x8000_0000_0000_0000 }
    } else {
        Double { bits: magnitude }
    }
}

/// The significand and the exponent step of a finite magnitude: the number
/// it denotes is the first times two to the power of the second.
fn parts(magnitude: u64) -> (r: (u64, u32))
    requires
        magnitude < INFINITY,
    ensures
        units(magnitude as nat) == r.0 * pow2(r.1 as nat),
        r.0 < 0x20_0000_0000_0000,
        r.1 <= 2045,
        r.1 == 0 || r.0 >= 0x10_0000_0000_0000,
        r.0 == 0 <==> magnitude == 0,
        r.1 == if magnitude < 0x20_0000_0000_0000 {
            0
        } else {
            magnitude / 0x10_0000_0000_0000 - 1
        },
{
    proof {
        lemma2_to64();
        lemma2_to64_rest();
    }
    let e = (magnitude / 0x10_0000_0000_0000) as u32;
    let f = magnitude % 0x10_0000_0000_0000;
    proof {
        assert(pow2(52) == 0x10_0000_0000_0000);
        assert(pow2(0) == 1);
        assert(f * 1 == f) by (nonlinear_arith);
    }
    if e == 0 {
        (f, 0)
    } else {
        (0x10_0000_0000_0000 + f, e - 1)
    }
}

impl Double {
    /// The product of two values.
    pub open spec fn product(self, rhs: Double) -> Double {
        if self.nan() || rhs.nan() || (self.infinite() && rhs.zero()) || (self.zero()
            && rhs.infinite()) {
            Double { bits: NAN }
        } else if self.infinite() || rhs.infinite() {
            signed(self.negative() != rhs.negative(), INFINITY as nat)
        } else {
            signed(
                self.negative() != rhs.negative(),
                rounded((units(self.magnitude()) * units(rhs.magnitude())) as int, pow2(1074) as int),
            )
        }
    }

    /// The sum of two values. A sum that is exactly zero is positive zero,
    /// unless both values are negative.
    pub open spec fn sum(self, rhs: Double) -> Double {
        if self.nan() || rhs.nan() || (self.infinite() && rhs.infinite() && self.negative()
            != rhs.negative()) {
            Double { bits: NAN }
        } else if self.infinite() {
            self
        } else if rhs.infinite() {
            rhs
        } else {
            let exact = self.scaled() + rhs.scaled();
            if exact == 0 {
                signed(self.negative() && rhs.negative(), 0)
            } else if exact < 0 {
                signed(true, rounded(-exact, 1))
            } else {
                signed(false, rounded(exact, 1))
            }
        }
    }

    /// The difference of two values: the sum of the first and the negation
    /// of the second.
    pub open spec fn difference(self, rhs: Double) -> Double {
        self.sum(rhs.negated())
    }

    /// The product of two values, rounded to nearest.
    pub fn mul(self, rhs: Double) -> (r: Double)
        ensures
            r == self.product(rhs),
    {
        if self.is_nan() || rhs.is_nan() {
            return Double { bits: NAN };
        }
        let negative = self.is_sign_negative() != rhs.is_sign_negative();
        let ma = self.magnitude_bits();
        let mb = rhs.magnitude_bits();
        if ma == INFINITY || mb == INFINITY {
            if ma == 0 || mb == 0 {
                return Double { bits: NAN };
            }
            return with_sign(negative, INFINITY);
        }
        let (sa, ea) = parts(ma);
        let (sb, eb) = parts(mb);
        proof {
            assert(sa * sb < 0x400_0000_0000_0000_0000_0000_0000) by (nonlinear_arith)
                requires
                    sa < 0x20_0000_0000_0000,
                    sb < 0x20_0000_0000_0000,
            ;
        }
        let p: u128 = (sa as u128) * (sb as u128);
        let e: i32 = ea as i32 + eb as i32 - 1074;
        let ghost n = units(ma as nat) * units(mb as nat);
        let ghost d = pow2(1074) as int;
        proof {
            lemma_pow2_pos(1074);
            lemma_product_stands(sa as nat, ea as nat, sb as nat, eb as nat);
        }
        let m = round_pack(p, e, false, Ghost(n as int), Ghost(d));
        proof {
            lemma_rounded(m as nat, n as int, d);
        }
        with_sign(negative, m)
    }

    /// The sum of two values, rounded to nearest.
    pub fn add(self, rhs: Double) -> (r: Double)
        ensures
            r == self.sum(rhs),
    {
        if self.is_nan() || rhs.is_nan() {
            return Double { bits: NAN };
        }
        let na = self.is_sign_negative();
        let nb = rhs.is_sign_negative();
        let ma = self.magnitude_bits();
        let mb = rhs.magnitude_bits();
        if ma == INFINITY {
            if mb == INFINITY && na != nb {
                return Double { bits: NAN };
            }
            return self;
        }
        if mb == INFINITY {
            return rhs;
        }
        if ma >= mb {
            add_finite(na, ma, nb, mb)
        } else {
            add_finite(nb, mb, na, ma)
        }
    }

    /// The difference of two values, rounded to nearest.
    pub fn sub(self, rhs: Double) -> (r: Double)
        ensures
            r == self.difference(rhs),
    {
        self.add(rhs.neg())
    }
}

/// The number that a sign and a finite magnitude denote, in units.
pub open spec fn signed_units(negative: bool, magnitude: nat) -> int {
    if negative {
        -(units(magnitude) as int)
    } else {
        units(magnitude) as int
    }
}

/// What the sum of two finite values is, from their signs and magnitudes.
pub open spec fn finite_sum(na: bool, ma: nat, nb: bool, mb: nat) -> Double {
    let exact = signed_units(na, ma) + signed_units(nb, mb);
    if exact == 0 {
        signed(na && nb, 0)
    } else if exact < 0 {
        signed(true, rounded(-exact, 1))
    } else {
        signed(false, rounded(exact, 1))
    }
}

/// The sum of two finite values of which the first has the larger magnitude.
fn add_finite(na: bool, ma: u64, nb: bool, mb: u64) -> (r: Double)
    requires
        mb <= ma < INFINITY,
    ensures
        r == finite_sum(na, ma as nat, nb, mb as nat),
        r == finite_sum(nb, mb as nat, na, ma as nat),
{
    let (sa, ea) = parts(ma);
    let (sb, eb) = parts(mb);
    let ghost ua = units(ma as nat) as int;
    let ghost ub = units(mb as nat) as int;
    proof {
        lemma_scaled_of_zero(23);
        if mb > 0 {
            lemma_scaled_of_increases(0, mb as nat, 52);
        }
        if mb < ma {
            lemma_scaled_of_increases(mb as nat, ma as nat, 52);
        }
        lemma2_to64();
        lemma2_to64_rest();
    }
    if mb == 0 {
        proof {
            lemma_rounded_exact(ma as nat, 1);
            assert(units(ma as nat) * 1 == units(ma as nat)) by (nonlinear_arith);
        }
        if ma == 0 {
            return with_sign(na && nb, 0);
        }
        return with_sign(na, ma);
    }
    if ma == mb && na != nb {
        return with_sign(false, 0);
    }
    let dlt = ea - eb;
    let p: u128;
    let e: i32;
    let sticky: bool;
    let ghost n: int = if na == nb {
        ua + ub
    } else {
        ua - ub
    };
    if dlt <= 60 {
        let shift = power_of_two(dlt);
        proof {
            lemma_pow2_adds(dlt as nat, eb as nat);
            lemma_pow2_pos(eb as nat);
            lemma_pow2_strictly_increases(dlt as nat, 61);
            lemma2_to64_rest();
            assert(sa * shift < 0x20_0000_0000_0000 * 0x2000_0000_0000_0000) by (nonlinear_arith)
                requires
                    sa < 0x20_0000_0000_0000,
                    shift < 0x2000_0000_0000_0000,
            ;
        }
        let wide: u128 = (sa as u128) * shift;
        let ghost t = pow2(eb as nat) as int;
        proof {
            assert(ua == wide * t) by (nonlinear_arith)
                requires
                    ua == sa * pow2(ea as nat),
                    pow2(ea as nat) == shift * t,
                    wide == sa * shift,
            ;
            assert(ub == sb * t);
            if na != nb {
                assert(wide > sb) by (nonlinear_arith)
                    requires
                        wide * t > sb * t,
                        t > 0,
                ;
            }
        }
        p = if na == nb {
            wide + sb as u128
        } else {
            wide - sb as u128
        };
        e = eb as i32;
        sticky = false;
        proof {
            assert(n * 1 == p * t * 1) by (nonlinear_arith)
                requires
                    ua == wide * t,
                    ub == sb * t,
                    n == if na == nb {
                        ua + ub
                    } else {
                        ua - ub
                    },
                    p == if na == nb {
                        wide + sb
                    } else {
                        wide - sb
                    },
            ;
        }
    } else {
        p = if na == nb {
            4 * (sa as u128)
        } else {
            4 * (sa as u128) - 1
        };
        e = ea as i32 - 2;
        sticky = true;
        proof {
            // The smaller value is less than a quarter of the last place of
            // the larger: all that matters of it is that it is there.
            let g = pow2((ea - 2) as nat) as int;
            lemma_pow2_adds(2, (ea - 2) as nat);
            lemma_pow2_adds(53, eb as nat);
            lemma_pow2_pos(eb as nat);
            if eb + 53 < ea - 2 {
                lemma_pow2_strictly_increases((eb + 53) as nat, (ea - 2) as nat);
            }
            assert(ub < g) by (nonlinear_arith)
                requires
                    ub == sb * pow2(eb as nat),
                    sb < 0x20_0000_0000_0000,
                    0x20_0000_0000_0000 * pow2(eb as nat) <= g,
                    pow2(eb as nat) > 0,
            ;
            assert(ua == 4 * sa * g) by (nonlinear_arith)
                requires
                    ua == sa * pow2(ea as nat),
                    pow2(ea as nat) == 4 * g,
            ;
            assert(p * g * 1 < n * 1 < (p + 1) * g * 1) by (nonlinear_arith)
                requires
                    ua == 4 * sa * g,
                    0 < ub < g,
                    n == if na == nb {
                        ua + ub
                    } else {
                        ua - ub
                    },
                    p == if na == nb {
                        4 * sa
                    } else {
                        4 * sa - 1
                    },
            ;
        }
    }
    let m = round_pack(p, e, sticky, Ghost(n), Ghost(1));
    proof {
        lemma_rounded(m as nat, n, 1);
    }
    with_sign(na, m)
}

proof fn lemma_product_stands(sa: nat, ea: nat, sb: nat, eb: nat)
    ensures
        stands_for(
            sa * sb,
            ea + eb - 1074,
            false,
            ((sa * pow2(ea)) * (sb * pow2(eb))) as int,
            pow2(1074) as int,
        ),
{
    let e = ea + eb - 1074;
    let a = pow2(ea) as int;
    let b = pow2(eb) as int;
    let d = pow2(1074) as int;
    lemma_pow2_adds(ea, eb);
    let ab = pow2(ea + eb) as int;
    if e >= 0 {
        let u = pow2(e as nat) as int;
        lemma_pow2_adds(e as nat, 1074);
        assert((sa * a) * (sb * b) * 1 == (sa * sb) * u * d) by (nonlinear_arith)
            requires
                ab == a * b,
                ab == u * d,
        ;
    } else {
        let w = pow2((-e) as nat) as int;
        lemma_pow2_adds((-e) as nat, ea + eb);
        assert((sa * a) * (sb * b) * w == (sa * sb) * 1 * d) by (nonlinear_arith)
            requires
                ab == a * b,
                d == w * ab,
        ;
    }
}

impl Double {
    /// The binary32 value nearest to this value.
    pub open spec fn narrowed(self) -> Single {
        if self.nan() {
            Single { bits: crate::arith::NAN }
        } else if self.infinite() {
            crate::arith::signed(self.negative(), crate::rounding::INFINITY as nat)
        } else {
            crate::arith::signed(
                self.negative(),
                crate::arith::rounded(units(self.magnitude()) as int, pow2(925) as int),
            )
        }
    }

    /// Converts to binary32, rounding to nearest.
    pub fn to_single(self) -> (r: Single)
        ensures
            r == self.narrowed(),
    {
        if self.is_nan() {
            return Single { bits: crate::arith::NAN };
        }
        let negative = self.is_sign_negative();
        let ma = self.magnitude_bits();
        if ma == INFINITY {
            return crate::arith::with_sign(negative, crate::rounding::INFINITY);
        }
        let (sa, ea) = parts(ma);
        let e: i32 = ea as i32 - 925;
        let ghost n = units(ma as nat) as int;
        let ghost d = pow2(925) as int;
        proof {
            lemma_pow2_pos(925);
            lemma_narrow_stands(sa as nat, ea as nat);
        }
        let m = crate::rounding::round_pack(sa as u128, e, false, Ghost(n), Ghost(d));
        proof {
            crate::arith::lemma_rounded(m as nat, n, d);
        }
        crate::arith::with_sign(negative, m)
    }
}

proof fn lemma_narrow_stands(sa: nat, ea: nat)
    ensures
        stands_for(sa, ea - 925, false, (sa * pow2(ea)) as int, pow2(925) as int),
{
    let e = ea - 925;
    let a = pow2(ea) as int;
    let d = pow2(925) as int;
    if e >= 0 {
        let u = pow2(e as nat) as int;
        lemma_pow2_adds(e as nat, 925);
        assert((sa * a) * 1 == sa * u * d) by (nonlinear_arith)
            requires
                a == u * d,
        ;
    } else {
        let w = pow2((-e) as nat) as int;
        lemma_pow2_adds((-e) as nat, ea);
        assert((sa * a) * w == sa * 1 * d) by (nonlinear_arith)
            requires
                d == w * a,
        ;
    }
}

} // verus!
