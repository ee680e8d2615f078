//! The numbers that IEEE 754 binary formats denote, read off their bits.
//!
//! A binary format with `w` fraction bits stores a magnitude as a biased
//! exponent `e` followed by a fraction `f`. Every finite magnitude is a whole
//! multiple of the smallest positive value of the format, so the number it
//! denotes can be given exactly as an integer count of that unit. The lemma of
//! this module shows that comparing magnitudes as plain integers is the same as
//! comparing the numbers they denote, which is what the ordering of
//! [`crate::single::Single`] and [`crate::double::Double`] rests on.
use vstd::arithmetic::div_mod::*;
use vstd::arithmetic::power2::*;
use vstd::prelude::*;

verus! {

/// The number denoted by the magnitude bits `mag` of a format with `w` fraction
/// bits, counted in units of the format's smallest positive value.
///
/// With a zero exponent field the fraction counts units directly (subnormal
/// numbers); otherwise the implicit leading one is added and the whole is
/// doubled once for each step of the exponent above one.
pub open spec fn scaled_of(mag: nat, w: nat) -> nat {
    let e = mag / pow2(w);
    let f = mag % pow2(w);
    if e == 0 {
        f
    } else {
        (pow2(w) + f) * pow2((e - 1) as nat)
    }
}

pub(crate) proof fn lemma_pow2_increases(a: nat, b: nat)
    requires
        a <= b,
    ensures
        pow2(a) <= pow2(b),
{
    if a < b {
        lemma_pow2_strictly_increases(a, b);
    }
}

/// The all-zero magnitude denotes zero.
pub proof fn lemma_scaled_of_zero(w: nat)
    ensures
        scaled_of(0, w) == 0,
{
    lemma_pow2_pos(w);
    lemma_small_mod(0, pow2(w));
    lemma_div_basics(pow2(w) as int);
}

/// A larger magnitude denotes a larger number: the order of the bit patterns
/// is the order of the values.
pub proof fn lemma_scaled_of_increases(a: nat, b: nat, w: nat)
    requires
        a < b,
    ensures
        scaled_of(a, w) < scaled_of(b, w),
{
    let p = pow2(w);
    lemma_pow2_pos(w);
    let ea = a / p;
    let fa = a % p;
    let eb = b / p;
    let fb = b % p;
    lemma_fundamental_div_mod(a as int, p as int);
    lemma_fundamental_div_mod(b as int, p as int);
    lemma_mod_bound(a as int, p as int);
    lemma_mod_bound(b as int, p as int);
    lemma_div_is_ordered(a as int, b as int, p as int);
    assert(ea <= eb);
    if ea == eb {
        assert(fa < fb) by (nonlinear_arith)
            requires
                a < b,
                a == p * ea + fa,
                b == p * ea + fb,
        ;
        if ea > 0 {
            let q = pow2((ea - 1) as nat);
            lemma_pow2_pos((ea - 1) as nat);
            assert((p + fa) * q < (p + fb) * q) by (nonlinear_arith)
                requires
                    fa < fb,
                    q > 0,
            ;
        }
    } else {
        let qb = pow2((eb - 1) as nat);
        lemma_pow2_pos((eb - 1) as nat);
        assert(p * qb <= (p + fb) * qb) by (nonlinear_arith)
            requires
                qb > 0,
                p > 0,
                fb >= 0,
        ;
        if ea == 0 {
            assert(p <= p * qb) by (nonlinear_arith)
                requires
                    qb > 0,
                    p > 0,
            ;
        } else {
            let qa = pow2((ea - 1) as nat);
            lemma_pow2_pos((ea - 1) as nat);
            lemma_pow2_unfold(ea);
            lemma_pow2_increases(ea, (eb - 1) as nat);
            assert((p + fa) * qa < p * (2 * qa)) by (nonlinear_arith)
                requires
                    fa < p,
                    qa > 0,
            ;
            assert(p * pow2(ea) <= p * qb) by (nonlinear_arith)
                requires
                    pow2(ea) <= qb,
                    p > 0,
            ;
        }
    }
}

/// Magnitudes that differ denote numbers that differ, and equal magnitudes
/// denote the same number.
pub proof fn lemma_scaled_of_orders(a: nat, b: nat, w: nat)
    ensures
        a < b <==> scaled_of(a, w) < scaled_of(b, w),
        a == b <==> scaled_of(a, w) == scaled_of(b, w),
{
    if a < b {
        lemma_scaled_of_increases(a, b, w);
    }
    if b < a {
        lemma_scaled_of_increases(b, a, w);
    }
}

} // verus!
