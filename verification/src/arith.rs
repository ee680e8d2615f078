//! Arithmetic on binary32 values: sum, difference, product, quotient and
//! square root, each the exact result rounded to the nearest value that the
//! format holds.
//!
//! The simulation has to come to the same bits on every machine that takes
//! part in it. So it does not leave its arithmetic to the machine: the
//! operations are carried out here, on the bit patterns, and are proved to
//! give what IEEE 754 defines. Where that definition leaves the bits of a
//! result open, for the NaNs, one NaN is chosen.
use crate::ieee::{lemma_scaled_of_increases, lemma_scaled_of_zero};
use crate::rounding::{
    bit_length, lemma_packed_units, lemma_root_rounds_to_unique, lemma_rounds_to_unique,
    power_of_two, root_rounds_to, round_pack, rounds_to, stands_for, units, INFINITY,
};
use crate::single::Single;
use std::ops::{Add, Div, Mul, Sub};
use vstd::arithmetic::div_mod::*;
use vstd::arithmetic::power2::*;
use vstd::prelude::*;
use vstd::std_specs::ops::{AddSpecImpl, DivSpecImpl, MulSpecImpl, SubSpecImpl};

verus! {

/// The bits of the NaN that an operation without a result gives.
pub const NAN: u32 = 0x7fc0_0000;

/// The magnitude that the number `n / d` rounds to.
pub open spec fn rounded(n: int, d: int) -> nat {
    choose|m: nat| rounds_to(m, n, d)
}

/// The magnitude that the square root of `v` rounds to.
pub open spec fn rooted(v: int) -> nat {
    choose|m: nat| root_rounds_to(m, v)
}

/// What is found to be the rounding of a number is the rounding of it.
pub proof fn lemma_rounded(m: nat, n: int, d: int)
    requires
        d > 0,
        rounds_to(m, n, d),
    ensures
        rounded(n, d) == m,
{
    lemma_rounds_to_unique(m, rounded(n, d), n, d);
}

/// What is found to be the rounding of a root is the rounding of it.
pub proof fn lemma_rooted(m: nat, v: int)
    requires
        root_rounds_to(m, v),
    ensures
        rooted(v) == m,
{
    lemma_root_rounds_to_unique(m, rooted(v), v);
}

/// A number that the format holds rounds to itself.
pub proof fn lemma_rounded_exact(m: nat, d: int)
    requires
        d > 0,
        m <= INFINITY,
    ensures
        rounds_to(m, units(m) * d, d),
        rounded(units(m) * d, d) == m,
{
    let here = units(m) as int;
    let n = here * d;
    if m > 0 {
        let below = units((m - 1) as nat) as int;
        lemma_scaled_of_increases((m - 1) as nat, m, 23);
        assert((below + here) * d < 2 * n) by (nonlinear_arith)
            requires
                n == here * d,
                below < here,
                d > 0,
        ;
    }
    let above = units(m + 1) as int;
    lemma_scaled_of_increases(m, m + 1, 23);
    assert(2 * n < (here + above) * d) by (nonlinear_arith)
        requires
            n == here * d,
            here < above,
            d > 0,
    ;
    lemma_rounded(m, n, d);
}

/// The value with the given sign and magnitude.
pub open spec fn signed(negative: bool, magnitude: nat) -> Single {
    Single {
        bits: if negative {
            (magnitude + 0x8000_0000) as u32
        } else {
            magnitude as u32
        },
    }
}

/// The number that a sign and a finite magnitude denote, in units.
pub open spec fn signed_units(negative: bool, magnitude: nat) -> int {
    if negative {
        -(units(magnitude) as int)
    } else {
        units(magnitude) as int
    }
}

/// What the sum of two finite values is, from their signs and magnitudes.
pub open spec fn finite_sum(na: bool, ma: nat, nb: bool, mb: nat) -> Single {
    let exact = signed_units(na, ma) + signed_units(nb, mb);
    if exact == 0 {
        signed(na && nb, 0)
    } else if exact < 0 {
        signed(true, rounded(-exact, 1))
    } else {
        signed(false, rounded(exact, 1))
    }
}

impl Single {
    /// The product of two values.
    pub open spec fn product(self, rhs: Single) -> Single {
        if self.nan() || rhs.nan() || (self.infinite() && rhs.zero()) || (self.zero()
            && rhs.infinite()) {
            Single { bits: NAN }
        } else if self.infinite() || rhs.infinite() {
            signed(self.negative() != rhs.negative(), INFINITY as nat)
        } else {
            signed(
                self.negative() != rhs.negative(),
                rounded((units(self.magnitude()) * units(rhs.magnitude())) as int, pow2(149) as int),
            )
        }
    }

    /// The sum of two values. A sum that is exactly zero is positive zero,
    /// unless both values are negative.
    pub open spec fn sum(self, rhs: Single) -> Single {
        if self.nan() || rhs.nan() || (self.infinite() && rhs.infinite() && self.negative()
            != rhs.negative()) {
            Single { bits: NAN }
        } else if self.infinite() {
            self
        } else if rhs.infinite() {
            rhs
        } else {
            let exact = self.scaled() + rhs.scaled();
            if exact == 0 {
                signed(self.negative() && rhs.negative(), 0)
            } else if exact < 0 {
                signed(true, rounded(-exact, 1))
            } else {
                signed(false, rounded(exact, 1))
            }
        }
    }

    /// The difference of two values: the sum of the first and the negation
    /// of the second.
    pub open spec fn difference(self, rhs: Single) -> Single {
        self.sum(rhs.negated())
    }

    /// The quotient of two values.
    pub open spec fn quotient(self, rhs: Single) -> Single {
        if self.nan() || rhs.nan() || (self.infinite() && rhs.infinite()) || (self.zero()
            && rhs.zero()) {
            Single { bits: NAN }
        } else if self.infinite() || rhs.zero() {
            signed(self.negative() != rhs.negative(), INFINITY as nat)
        } else if rhs.infinite() {
            signed(self.negative() != rhs.negative(), 0)
        } else {
            signed(
                self.negative() != rhs.negative(),
                rounded((units(self.magnitude()) * pow2(149)) as int, units(rhs.magnitude()) as int),
            )
        }
    }

    /// The product of two values, rounded to nearest.
    pub fn mul(self, rhs: Single) -> (r: Single)
        ensures
            r == self.product(rhs),
    {
        if self.is_nan() || rhs.is_nan() {
            return Single { bits: NAN };
        }
        let negative = self.is_sign_negative() != rhs.is_sign_negative();
        let ma = self.magnitude_bits();
        let mb = rhs.magnitude_bits();
        if ma == INFINITY || mb == INFINITY {
            if ma == 0 || mb == 0 {
                return Single { bits: NAN };
            }
            return with_sign(negative, INFINITY);
        }
        let (sa, ea) = parts(ma);
        let (sb, eb) = parts(mb);
        proof {
            assert(sa * sb < 0x1_0000_0000_0000) by (nonlinear_arith)
                requires
                    sa < 0x100_0000,
                    sb < 0x100_0000,
            ;
        }
        let p: u128 = (sa as u128) * (sb as u128);
        let e: i32 = ea as i32 + eb as i32 - 149;
        let ghost n = units(ma as nat) * units(mb as nat);
        let ghost d = pow2(149) as int;
        proof {
            lemma_pow2_pos(149);
            lemma_product_stands(sa as nat, ea as nat, sb as nat, eb as nat);
        }
        let m = round_pack(p, e, false, Ghost(n as int), Ghost(d));
        proof {
            lemma_rounded(m as nat, n as int, d);
        }
        with_sign(negative, m)
    }

    /// The sum of two values, rounded to nearest.
    pub fn add(self, rhs: Single) -> (r: Single)
        ensures
            r == self.sum(rhs),
    {
        if self.is_nan() || rhs.is_nan() {
            return Single { bits: NAN };
        }
        let na = self.is_sign_negative();
        let nb = rhs.is_sign_negative();
        let ma = self.magnitude_bits();
        let mb = rhs.magnitude_bits();
        if ma == INFINITY {
            if mb == INFINITY && na != nb {
                return Single { bits: NAN };
            }
            return self;
        }
        if mb == INFINITY {
            return rhs;
        }
        if ma >= mb {
            add_finite(na, ma, nb, mb)
        } else {
            add_finite(nb, mb, na, ma)
        }
    }

    /// The difference of two values, rounded to nearest.
    pub fn sub(self, rhs: Single) -> (r: Single)
        ensures
            r == self.difference(rhs),
    {
        self.add(rhs.neg())
    }

    /// The quotient of two values, rounded to nearest.
    pub fn div(self, rhs: Single) -> (r: Single)
        ensures
            r == self.quotient(rhs),
    {
        if self.is_nan() || rhs.is_nan() {
            return Single { bits: NAN };
        }
        let negative = self.is_sign_negative() != rhs.is_sign_negative();
        let ma = self.magnitude_bits();
        let mb = rhs.magnitude_bits();
        if ma == INFINITY {
            if mb == INFINITY {
                return Single { bits: NAN };
            }
            return with_sign(negative, INFINITY);
        }
        if mb == INFINITY {
            return with_sign(negative, 0);
        }
        if mb == 0 {
            if ma == 0 {
                return Single { bits: NAN };
            }
            return with_sign(negative, INFINITY);
        }
        let (sa, ea) = parts(ma);
        let (sb, eb) = parts(mb);
        let ghost n = (units(ma as nat) * pow2(149)) as int;
        let ghost d = units(mb as nat) as int;
        proof {
            lemma_scaled_of_zero(23);
            lemma_scaled_of_increases(0, mb as nat, 23);
            lemma2_to64();
        }
        if ma == 0 {
            proof {
                lemma_rounded_exact(0, d);
                assert(0 * d == 0 && 0 * pow2(149) == 0) by (nonlinear_arith);
            }
            return with_sign(negative, 0);
        }
        let wide: u128 = (sa as u128) * 0x1_0000_0000_0000_0000;
        let q = wide / (sb as u128);
        let rem = wide % (sb as u128);
        let e: i32 = ea as i32 - eb as i32 + 85;
        proof {
            lemma_fundamental_div_mod(wide as int, sb as int);
            lemma_mod_bound(wide as int, sb as int);
            lemma_quotient_stands(
                sa as nat,
                ea as nat,
                sb as nat,
                eb as nat,
                q as nat,
                rem as nat,
            );
            assert(q >= 0x100_0000 && q < 0x100_0000_0000_0000_0000_0000) by (nonlinear_arith)
                requires
                    sa * 0x1_0000_0000_0000_0000 == sb * q + rem,
                    0 <= rem < sb,
                    1 <= sa < 0x100_0000,
                    1 <= sb < 0x100_0000,
                    q >= 0,
            ;
        }
        let m = round_pack(q, e, rem != 0, Ghost(n), Ghost(d));
        proof {
            lemma_rounded(m as nat, n, d);
        }
        with_sign(negative, m)
    }
}

impl Single {
    /// The square root of a value. The root of a negative number is NaN;
    /// the root of negative zero is negative zero.
    pub open spec fn root(self) -> Single {
        if self.nan() || (self.negative() && !self.zero()) {
            Single { bits: NAN }
        } else if self.zero() || self.infinite() {
            self
        } else {
            signed(false, rooted((units(self.magnitude()) * pow2(149)) as int))
        }
    }

    /// The square root of a value, rounded to nearest.
    pub fn sqrt(self) -> (r: Single)
        ensures
            r == self.root(),
    {
        if self.is_nan() {
            return Single { bits: NAN };
        }
        let ma = self.magnitude_bits();
        if ma == 0 {
            return self;
        }
        if self.is_sign_negative() {
            return Single { bits: NAN };
        }
        if ma == INFINITY {
            return self;
        }
        let (sa, ea) = parts(ma);
        let l = bit_length(sa as u128);
        proof {
            lemma2_to64();
            if l > 24 {
                lemma_pow2_strictly_increases(24, (l - 1) as nat);
            }
        }
        let shift = 24 - l;
        let grow = power_of_two(shift);
        proof {
            lemma_pow2_adds(l as nat, shift as nat);
            lemma_pow2_adds((l - 1) as nat, shift as nat);
            lemma_pow2_strictly_increases(shift as nat, 24);
            assert(0x80_0000 <= sa * grow < 0x100_0000) by (nonlinear_arith)
                requires
                    pow2((l - 1) as nat) <= sa < pow2(l as nat),
                    pow2(l as nat) * grow == 0x100_0000,
                    pow2((l - 1) as nat) * grow == 0x80_0000,
                    grow > 0,
            ;
        }
        let sn: u64 = (sa as u64) * (grow as u64);
        let big_e: u32 = ea + 149 - shift;
        let odd = big_e % 2 == 1;
        let sn2: u64 = if odd {
            2 * sn
        } else {
            sn
        };
        let e2: u32 = if odd {
            big_e - 1
        } else {
            big_e
        };
        let w: u64 = sn2 * 0x4000_0000;
        let isq = integer_root(w);
        let e: u32 = (e2 - 30) / 2;
        proof {
            lemma_root_scale(
                sa as nat,
                ea as nat,
                shift as nat,
                sn as nat,
                odd,
                sn2 as nat,
                e as nat,
                w as nat,
            );
            assert(0x400_0000 <= isq) by (nonlinear_arith)
                requires
                    0x10_0000_0000_0000 < w < (isq + 1) * (isq + 1),
                    isq >= 0,
            ;
        }
        let r: u32 = if isq >= 0x800_0000 {
            4
        } else {
            3
        };
        let a: u64 = if isq >= 0x800_0000 {
            16
        } else {
            8
        };
        let q0 = isq / a;
        let rem = isq % a;
        let h = a / 2;
        let sticky = isq * isq != w;
        let up = rem > h || (rem == h && (sticky || q0 % 2 == 1));
        let q: u64 = if up {
            q0 + 1
        } else {
            q0
        };
        let s: u32 = e + r;
        let m: u32 = s * 0x80_0000 + (q as u32);
        proof {
            lemma_root_rounded(
                isq as nat,
                w as nat,
                q0 as nat,
                rem as nat,
                r as nat,
                up,
                q as nat,
                e as nat,
            );
            lemma_rooted(m as nat, (units(ma as nat) * pow2(149)) as int);
        }
        with_sign(false, m)
    }
}

impl Single {
    /// The binary32 value nearest to the whole number `n`.
    pub open spec fn from_whole(n: nat) -> Single {
        signed(false, rounded((n * pow2(149)) as int, 1))
    }

    /// Converts a whole number to binary32, rounding to nearest.
    pub fn from_u128(n: u128) -> (r: Single)
        ensures
            r == Single::from_whole(n as nat),
    {
        let ghost exact = (n * pow2(149)) as int;
        proof {
            lemma2_to64();
            lemma2_to64_rest();
            lemma_pow2_adds(64, 62);
            lemma_pow2_pos(149);
        }
        let m = if n < 0x4000_0000_0000_0000_0000_0000_0000_0000 {
            proof {
                assert(exact * 1 == n * pow2(149) * 1) by (nonlinear_arith)
                    requires
                        exact == n * pow2(149),
                ;
            }
            round_pack(n, 149, false, Ghost(exact), Ghost(1))
        } else {
            // Too long for the rounding as it is: the last two bits go, and
            // are remembered only as there or not.
            let p = n / 4;
            let rest = n % 4;
            proof {
                lemma_pow2_adds(2, 149);
                let u = pow2(151) as int;
                let k = pow2(149) as int;
                assert(u == 4 * k);
                if rest == 0 {
                    assert(exact * 1 == p * u * 1) by (nonlinear_arith)
                        requires
                            exact == n * k,
                            n == 4 * p,
                            u == 4 * k,
                    ;
                } else {
                    assert(p * u * 1 < exact * 1 < (p + 1) * u * 1) by (nonlinear_arith)
                        requires
                            exact == n * k,
                            n == 4 * p + rest,
                            0 < rest < 4,
                            u == 4 * k,
                            k > 0,
                    ;
                }
            }
            round_pack(p, 151, rest != 0, Ghost(exact), Ghost(1))
        };
        proof {
            lemma_rounded(m as nat, exact, 1);
        }
        with_sign(false, m)
    }
}

/// The operators `+`, `-`, `*` and `/` on binary32 values are the four
/// operations of this module.
impl Add for Single {
    type Output = Single;

    fn add(self, rhs: Single) -> (r: Single) {
        Single::add(self, rhs)
    }
}

impl AddSpecImpl for Single {
    open spec fn obeys_add_spec() -> bool {
        true
    }

    open spec fn add_req(self, rhs: Single) -> bool {
        true
    }

    open spec fn add_spec(self, rhs: Single) -> Single {
        self.sum(rhs)
    }
}

impl Sub for Single {
    type Output = Single;

    fn sub(self, rhs: Single) -> (r: Single) {
        Single::sub(self, rhs)
    }
}

impl SubSpecImpl for Single {
    open spec fn obeys_sub_spec() -> bool {
        true
    }

    open spec fn sub_req(self, rhs: Single) -> bool {
        true
    }

    open spec fn sub_spec(self, rhs: Single) -> Single {
        self.difference(rhs)
    }
}

impl Mul for Single {
    type Output = Single;

    fn mul(self, rhs: Single) -> (r: Single) {
        Single::mul(self, rhs)
    }
}

impl MulSpecImpl for Single {
    open spec fn obeys_mul_spec() -> bool {
        true
    }

    open spec fn mul_req(self, rhs: Single) -> bool {
        true
    }

    open spec fn mul_spec(self, rhs: Single) -> Single {
        self.product(rhs)
    }
}

impl Div for Single {
    type Output = Single;

    fn div(self, rhs: Single) -> (r: Single) {
        Single::div(self, rhs)
    }
}

impl DivSpecImpl for Single {
    open spec fn obeys_div_spec() -> bool {
        true
    }

    open spec fn div_req(self, rhs: Single) -> bool {
        true
    }

    open spec fn div_spec(self, rhs: Single) -> Single {
        self.quotient(rhs)
    }
}

pub(crate) fn with_sign(negative: bool, magnitude: u32) -> (r: Single)
    requires
        magnitude < 0x8000_0000,
    ensures
        r == signed(negative, magnitude as nat),
        r.magnitude() == magnitude,
        r.negative() == negative,
{
    if negative {
        Single { bits: magnitude + 0x8000_0000 }
    } else {
        Single { bits: magnitude }
    }
}

/// The significand and the exponent step of a finite magnitude: the number
/// it denotes is the first times two to the power of the second.
fn parts(magnitude: u32) -> (r: (u32, u32))
    requires
        magnitude < INFINITY,
    ensures
        units(magnitude as nat) == r.0 * pow2(r.1 as nat),
        r.0 < 0x100_0000,
        r.1 <= 253,
        r.1 == 0 || r.0 >= 0x80_0000,
        r.0 == 0 <==> magnitude == 0,
        r.1 == if magnitude < 0x100_0000 {
            0
        } else {
            magnitude / 0x80_0000 - 1
        },
{
    proof {
        lemma2_to64();
    }
    let e = magnitude / 0x80_0000;
    let f = magnitude % 0x80_0000;
    proof {
        assert(pow2(23) == 0x80_0000);
        assert(pow2(0) == 1);
        assert(f * 1 == f) by (nonlinear_arith);
    }
    if e == 0 {
        (f, 0)
    } else {
        (0x80_0000 + f, e - 1)
    }
}

proof fn lemma_product_stands(sa: nat, ea: nat, sb: nat, eb: nat)
    ensures
        stands_for(
            sa * sb,
            ea + eb - 149,
            false,
            ((sa * pow2(ea)) * (sb * pow2(eb))) as int,
            pow2(149) as int,
        ),
{
    let e = ea + eb - 149;
    let a = pow2(ea) as int;
    let b = pow2(eb) as int;
    let d = pow2(149) as int;
    lemma_pow2_adds(ea, eb);
    let ab = pow2(ea + eb) as int;
    if e >= 0 {
        let u = pow2(e as nat) as int;
        lemma_pow2_adds(e as nat, 149);
        assert((sa * a) * (sb * b) * 1 == (sa * sb) * u * d) by (nonlinear_arith)
            requires
                ab == a * b,
                ab == u * d,
        ;
    } else {
        let w = pow2((-e) as nat) as int;
        lemma_pow2_adds((-e) as nat, ea + eb);
        assert((sa * a) * (sb * b) * w == (sa * sb) * 1 * d) by (nonlinear_arith)
            requires
                ab == a * b,
                d == w * ab,
        ;
    }
}

/// The sum of two finite values of which the first has the larger magnitude.
fn add_finite(na: bool, ma: u32, nb: bool, mb: u32) -> (r: Single)
    requires
        mb <= ma < INFINITY,
    ensures
        r == finite_sum(na, ma as nat, nb, mb as nat),
        r == finite_sum(nb, mb as nat, na, ma as nat),
{
    let (sa, ea) = parts(ma);
    let (sb, eb) = parts(mb);
    let ghost ua = units(ma as nat) as int;
    let ghost ub = units(mb as nat) as int;
    proof {
        lemma_scaled_of_zero(23);
        if mb > 0 {
            lemma_scaled_of_increases(0, mb as nat, 23);
        }
        if mb < ma {
            lemma_scaled_of_increases(mb as nat, ma as nat, 23);
        }
        lemma2_to64();
    }
    if mb == 0 {
        proof {
            lemma_rounded_exact(ma as nat, 1);
            assert(units(ma as nat) * 1 == units(ma as nat)) by (nonlinear_arith);
        }
        if ma == 0 {
            return with_sign(na && nb, 0);
        }
        return with_sign(na, ma);
    }
    if ma == mb && na != nb {
        return with_sign(false, 0);
    }
    let dlt = ea - eb;
    let p: u128;
    let e: i32;
    let sticky: bool;
    let ghost n: int = if na == nb {
        ua + ub
    } else {
        ua - ub
    };
    if dlt <= 60 {
        let shift = power_of_two(dlt);
        proof {
            lemma_pow2_adds(dlt as nat, eb as nat);
            lemma_pow2_pos(eb as nat);
            lemma_pow2_strictly_increases(dlt as nat, 61);
            lemma2_to64_rest();
            assert(sa * shift < 0x100_0000 * 0x2000_0000_0000_0000) by (nonlinear_arith)
                requires
                    sa < 0x100_0000,
                    shift < 0x2000_0000_0000_0000,
            ;
        }
        let wide: u128 = (sa as u128) * shift;
        let ghost t = pow2(eb as nat) as int;
        proof {
            assert(ua == wide * t) by (nonlinear_arith)
                requires
                    ua == sa * pow2(ea as nat),
                    pow2(ea as nat) == shift * t,
                    wide == sa * shift,
            ;
            assert(ub == sb * t);
            if na != nb {
                assert(wide > sb) by (nonlinear_arith)
                    requires
                        wide * t > sb * t,
                        t > 0,
                ;
            }
        }
        p = if na == nb {
            wide + sb as u128
        } else {
            wide - sb as u128
        };
        e = eb as i32;
        sticky = false;
        proof {
            assert(n * 1 == p * t * 1) by (nonlinear_arith)
                requires
                    ua == wide * t,
                    ub == sb * t,
                    n == if na == nb {
                        ua + ub
                    } else {
                        ua - ub
                    },
                    p == if na == nb {
                        wide + sb
                    } else {
                        wide - sb
                    },
            ;
        }
    } else {
        p = if na == nb {
            4 * (sa as u128)
        } else {
            4 * (sa as u128) - 1
        };
        e = ea as i32 - 2;
        sticky = true;
        proof {
            // The smaller value is less than a quarter of the last place of
            // the larger: all that matters of it is that it is there.
            let g = pow2((ea - 2) as nat) as int;
            lemma_pow2_adds(2, (ea - 2) as nat);
            lemma_pow2_adds(24, eb as nat);
            lemma_pow2_pos(eb as nat);
            if eb + 24 < ea - 2 {
                lemma_pow2_strictly_increases((eb + 24) as nat, (ea - 2) as nat);
            }
            assert(ub < g) by (nonlinear_arith)
                requires
                    ub == sb * pow2(eb as nat),
                    sb < 0x100_0000,
                    0x100_0000 * pow2(eb as nat) <= g,
                    pow2(eb as nat) > 0,
            ;
            assert(ua == 4 * sa * g) by (nonlinear_arith)
                requires
                    ua == sa * pow2(ea as nat),
                    pow2(ea as nat) == 4 * g,
            ;
            assert(p * g * 1 < n * 1 < (p + 1) * g * 1) by (nonlinear_arith)
                requires
                    ua == 4 * sa * g,
                    0 < ub < g,
                    n == if na == nb {
                        ua + ub
                    } else {
                        ua - ub
                    },
                    p == if na == nb {
                        4 * sa
                    } else {
                        4 * sa - 1
                    },
            ;
        }
    }
    let m = round_pack(p, e, sticky, Ghost(n), Ghost(1));
    proof {
        lemma_rounded(m as nat, n, 1);
    }
    with_sign(na, m)
}

proof fn lemma_quotient_stands(sa: nat, ea: nat, sb: nat, eb: nat, q: nat, rem: nat)
    requires
        sb > 0,
        sa * 0x1_0000_0000_0000_0000 == sb * q + rem,
        rem < sb,
    ensures
        stands_for(
            q,
            ea - eb + 85,
            rem != 0,
            ((sa * pow2(ea)) * pow2(149)) as int,
            (sb * pow2(eb)) as int,
        ),
{
    let e = ea - eb + 85;
    let a = pow2(ea) as int;
    let b = pow2(eb) as int;
    let k = pow2(149) as int;
    let w = pow2(64) as int;
    lemma2_to64();
    lemma_pow2_pos(ea);
    lemma_pow2_pos(eb);
    lemma_pow2_adds(ea, 149);
    lemma_pow2_adds(eb, 64);
    let ak = pow2(ea + 149) as int;
    let bw = pow2(eb + 64) as int;
    let n = (sa * a) * k;
    let d = sb * b;
    let wide = sa * w;
    assert(w == 0x1_0000_0000_0000_0000);
    if rem != 0 {
        assert(sb * q < sa * w < sb * (q + 1)) by (nonlinear_arith)
            requires
                sa * w == sb * q + rem,
                0 < rem < sb,
        ;
    }
    if e >= 0 {
        let u = pow2(e as nat) as int;
        lemma_pow2_pos(e as nat);
        lemma_pow2_adds(e as nat, eb + 64);
        assert(ak == u * bw);
        if rem == 0 {
            assert(n * 1 == q * u * d) by (nonlinear_arith)
                requires
                    n == (sa * a) * k,
                    d == sb * b,
                    ak == a * k,
                    bw == b * w,
                    ak == u * bw,
                    sa * w == sb * q,
            ;
        } else {
            assert(q * u * d < n * 1 < (q + 1) * u * d) by (nonlinear_arith)
                requires
                    n == (sa * a) * k,
                    d == sb * b,
                    ak == a * k,
                    bw == b * w,
                    ak == u * bw,
                    sb * q < sa * w < sb * (q + 1),
                    u > 0,
                    b > 0,
            ;
        }
    } else {
        let v = pow2((-e) as nat) as int;
        lemma_pow2_pos((-e) as nat);
        lemma_pow2_adds((-e) as nat, ea + 149);
        assert(bw == v * ak);
        if rem == 0 {
            assert(n * v == q * 1 * d) by (nonlinear_arith)
                requires
                    n == (sa * a) * k,
                    d == sb * b,
                    ak == a * k,
                    bw == b * w,
                    bw == v * ak,
                    sa * w == sb * q,
            ;
        } else {
            assert(q * 1 * d < n * v < (q + 1) * 1 * d) by (nonlinear_arith)
                requires
                    n == (sa * a) * k,
                    d == sb * b,
                    ak == a * k,
                    bw == b * w,
                    bw == v * ak,
                    sb * q < sa * w < sb * (q + 1),
                    b > 0,
            ;
        }
    }
}

/// The whole part of the square root of `w`.
fn integer_root(w: u64) -> (r: u64)
    requires
        w < 0x100_0000_0000_0000,
    ensures
        r * r <= w < (r + 1) * (r + 1),
        r < 0x1000_0000,
{
    let mut lo: u64 = 0;
    let mut hi: u64 = 0x1000_0000;
    while hi - lo > 1
        invariant
            lo < hi <= 0x1000_0000,
            lo * lo <= w < hi * hi,
            w < 0x100_0000_0000_0000,
        decreases hi - lo,
    {
        let mid = lo + (hi - lo) / 2;
        proof {
            assert(mid * mid < 0x100_0000_0000_0000) by (nonlinear_arith)
                requires
                    0 <= mid < 0x1000_0000,
            ;
        }
        if mid * mid <= w {
            lo = mid;
        } else {
            hi = mid;
        }
    }
    lo
}

proof fn lemma_square_of_double(c: int, t: int)
    by (nonlinear_arith)
    ensures
        (2 * c * t) * (2 * c * t) == 4 * ((c * c) * (t * t)),
{
}

proof fn lemma_squares_in_order(x: int, y: int)
    by (nonlinear_arith)
    requires
        0 <= x <= y,
    ensures
        x * x <= y * y,
        x < y ==> x * x < y * y,
{
}

proof fn lemma_scaled_in_order(x: int, y: int, k: int)
    by (nonlinear_arith)
    requires
        x <= y,
        k > 0,
    ensures
        x * k <= y * k,
        x < y ==> x * k < y * k,
{
}

proof fn lemma_root_step_sums(
    q0: int,
    rem: int,
    a: int,
    h: int,
    up: bool,
    q: int,
    t: int,
    below: int,
    here: int,
    above: int,
)
    by (nonlinear_arith)
    requires
        a == 2 * h,
        q == q0 + if up {
            1int
        } else {
            0int
        },
        t > 0,
        q0 >= 1,
        here == q * (a * t),
        0 <= below < here,
        up ==> below == (q - 1) * (a * t),
        above >= (q + 1) * (a * t),
    ensures
        up ==> below + here == 2 * (q0 * a + h) * t,
        !up ==> below + here < 2 * (q0 * a) * t,
        here + above >= 2 * (q * a + h) * t,
        above == (q + 1) * (a * t) ==> here + above == 2 * (q * a + h) * t,
        2 * (q0 * a) * t >= 0,
        2 * (q * a + h) * t >= 0,
{
}

proof fn lemma_root_step(
    isq: int,
    w: int,
    q0: int,
    rem: int,
    a: int,
    h: int,
    up: bool,
    q: int,
    t: int,
    below: int,
    here: int,
    above: int,
)
    requires
        isq * isq <= w < (isq + 1) * (isq + 1),
        isq == q0 * a + rem,
        0 <= rem < a,
        a == 2 * h,
        h >= 1,
        q0 >= 1,
        up == (rem > h || (rem == h && (isq * isq != w || q0 % 2 == 1))),
        q == q0 + if up {
            1int
        } else {
            0int
        },
        t > 0,
        here == q * (a * t),
        0 <= below < here,
        up ==> below == (q - 1) * (a * t),
        above >= (q + 1) * (a * t),
    ensures
        (below + here) * (below + here) <= 4 * (w * (t * t)),
        (below + here) * (below + here) == 4 * (w * (t * t)) ==> q % 2 == 0,
        4 * (w * (t * t)) <= (here + above) * (here + above),
        4 * (w * (t * t)) == (here + above) * (here + above) ==> q % 2 == 0,
{
    lemma_root_step_sums(q0, rem, a, h, up, q, t, below, here, above);
    let tt = t * t;
    assert(tt > 0) by (nonlinear_arith)
        requires
            t > 0,
            tt == t * t,
    ;
    // From below: the midpoint is at most the whole part of the root.
    let c_low = if up {
        q0 * a + h
    } else {
        q0 * a
    };
    assert(0 <= c_low <= isq) by (nonlinear_arith)
        requires
            c_low == if up {
                q0 * a + h
            } else {
                q0 * a
            },
            isq == q0 * a + rem,
            up ==> rem >= h,
            rem >= 0,
            q0 >= 1,
            a >= 2,
            h >= 1,
    ;
    let low = below + here;
    let low_cap = 2 * c_low * t;
    assert(0 <= low <= low_cap);
    lemma_squares_in_order(low, low_cap);
    lemma_square_of_double(c_low, t);
    lemma_squares_in_order(c_low, isq);
    lemma_scaled_in_order(c_low * c_low, isq * isq, tt);
    lemma_scaled_in_order(isq * isq, w, tt);
    assert(low * low <= 4 * (w * tt));
    if low * low == 4 * (w * tt) {
        assert(up);
        assert(c_low * c_low == isq * isq);
        assert(c_low == isq) by {
            if c_low < isq {
                lemma_squares_in_order(c_low, isq);
            }
        }
        assert(isq * isq == w) by {
            if isq * isq < w {
                lemma_scaled_in_order(isq * isq, w, tt);
            }
        }
        assert(rem == h);
        assert(q0 % 2 == 1);
    }
    // From above: the midpoint is beyond the root, or on it.
    let c_up = q * a + h;
    assert(c_up >= isq && (c_up == isq ==> !up && rem == h)) by (nonlinear_arith)
        requires
            c_up == q * a + h,
            isq == q0 * a + rem,
            q == q0 + if up {
                1int
            } else {
                0int
            },
            !up ==> rem <= h,
            up ==> rem < a,
            a == 2 * h,
            h >= 1,
            a >= 2,
    ;
    let high = here + above;
    let high_floor = 2 * c_up * t;
    assert(0 <= high_floor <= high);
    lemma_squares_in_order(high_floor, high);
    lemma_square_of_double(c_up, t);
    if c_up > isq {
        lemma_squares_in_order(isq + 1, c_up);
        lemma_scaled_in_order(w, c_up * c_up, tt);
        assert(4 * (w * tt) < high * high);
    } else {
        assert(isq * isq == w);
        assert(q0 % 2 == 0);
    }
}

/// The number whose root is taken is `w` steps of `2^e * 2^e` units.
proof fn lemma_root_scale(
    sa: nat,
    ea: nat,
    shift: nat,
    sn: nat,
    odd: bool,
    sn2: nat,
    e: nat,
    w: nat,
)
    requires
        shift <= 23,
        sn == sa * pow2(shift),
        odd == ((ea + 149 - shift) % 2 == 1),
        sn2 == if odd {
            2 * sn
        } else {
            sn
        },
        e == (if odd {
            ea + 149 - shift - 1
        } else {
            ea + 149 - shift
        } - 30) / 2,
        w == sn2 * 0x4000_0000,
    ensures
        (sa * pow2(ea)) * pow2(149) == w * (pow2(e) * pow2(e)),
{
    lemma2_to64();
    let big_e = (ea + 149 - shift) as nat;
    let e2 = if odd {
        (big_e - 1) as nat
    } else {
        big_e
    };
    assert(e2 == 30 + e + e);
    let t = pow2(e) as int;
    let grow = pow2(shift) as int;
    lemma_pow2_adds(e, e);
    lemma_pow2_adds(30, e + e);
    lemma_pow2_adds(shift, big_e);
    lemma_pow2_adds(ea, 149);
    if odd {
        lemma_pow2_unfold(big_e);
    }
    let pe2 = pow2(e2) as int;
    let pbig = pow2(big_e) as int;
    let pall = pow2(ea + 149) as int;
    assert(pe2 == 0x4000_0000 * (t * t));
    assert(sn2 * pe2 == sn * pbig) by (nonlinear_arith)
        requires
            odd ==> pbig == 2 * pe2 && sn2 == 2 * sn,
            !odd ==> pbig == pe2 && sn2 == sn,
    ;
    assert((sa * pow2(ea)) * pow2(149) == w * (t * t)) by (nonlinear_arith)
        requires
            pall == pow2(ea) * pow2(149),
            pall == grow * pbig,
            sn == sa * grow,
            sn2 * pe2 == sn * pbig,
            pe2 == 0x4000_0000 * (t * t),
            w == sn2 * 0x4000_0000,
    ;
}

/// Rounding a square root of which the whole part `isq` is known, and
/// whether anything comes after it.
proof fn lemma_root_rounded(
    isq: nat,
    w: nat,
    q0: nat,
    rem: nat,
    r: nat,
    up: bool,
    q: nat,
    e: nat,
)
    requires
        isq * isq <= w < (isq + 1) * (isq + 1),
        r >= 1,
        isq == q0 * pow2(r) + rem,
        rem < pow2(r),
        0x80_0000 <= q0 < 0x100_0000,
        up == (rem > pow2((r - 1) as nat) || (rem == pow2((r - 1) as nat) && (isq * isq != w || q0
            % 2 == 1))),
        q == q0 + if up {
            1nat
        } else {
            0nat
        },
        (e + r) * 0x80_0000 + q < INFINITY,
    ensures
        root_rounds_to((e + r) * 0x80_0000 + q, (w * (pow2(e) * pow2(e))) as int),
{
    let s = e + r;
    let m = s * 0x80_0000 + q;
    let t = pow2(e) as int;
    let a = pow2(r) as int;
    let h = pow2((r - 1) as nat) as int;
    let big_t = pow2(s) as int;
    lemma_pow2_pos(e);
    lemma_pow2_pos((r - 1) as nat);
    lemma_pow2_unfold(r);
    lemma_pow2_adds(r, e);
    assert(big_t == a * t);
    lemma_packed_units(q, s);
    lemma_scaled_of_increases((m - 1) as nat, m, 23);
    if up {
        lemma_packed_units((q - 1) as nat, s);
        assert(m - 1 == s * 0x80_0000 + (q - 1));
    }
    if q < 0x100_0000 {
        lemma_packed_units(q + 1, s);
        assert(m + 1 == s * 0x80_0000 + (q + 1));
    } else {
        lemma_packed_units(0x80_0001, s + 1);
        lemma_pow2_unfold(s + 1);
        assert(m + 1 == (s + 1) * 0x80_0000 + 0x80_0001);
        assert(0x80_0001 * pow2(s + 1) >= (q + 1) * big_t) by (nonlinear_arith)
            requires
                q == 0x100_0000,
                pow2(s + 1) == 2 * big_t,
        ;
    }
    lemma_root_step(
        isq as int,
        w as int,
        q0 as int,
        rem as int,
        a,
        h,
        up,
        q as int,
        t,
        units((m - 1) as nat) as int,
        units(m) as int,
        units(m + 1) as int,
    );
    assert(m % 2 == q % 2) by {
        assert(m == q + 0x80_0000 * s);
        lemma_mod_multiples_vanish(0x40_0000 * (s as int), q as int, 2);
    }
}

} // verus!
