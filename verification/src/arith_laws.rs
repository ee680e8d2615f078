//! What holds of the arithmetic on binary32 values: that every result
//! exists, that rounding keeps the order, and what zero and one do.
use crate::arith::{lemma_rooted, lemma_rounded, lemma_rounded_exact, rooted, rounded};
use crate::ieee::{lemma_scaled_of_increases, lemma_scaled_of_zero};
use crate::rounding::{
    lemma_root_rounds_to_exists, lemma_rounds_to_exists, lemma_units_ordered, root_rounds_to,
    rounds_to, units, INFINITY,
};
use crate::single::{lemma_scaled_normal, Single};
use vstd::arithmetic::power2::*;
use vstd::prelude::*;

verus! {

/// Every number that is not negative has a rounding.
pub proof fn lemma_rounded_rounds(n: int, d: int)
    requires
        n >= 0,
        d > 0,
    ensures
        rounds_to(rounded(n, d), n, d),
        rounded(n, d) <= INFINITY,
{
    let m = lemma_rounds_to_exists(n, d);
}

/// The root of every number that the format holds has a rounding, which is
/// finite.
pub proof fn lemma_rooted_rounds(a: nat)
    requires
        a < INFINITY,
    ensures
        root_rounds_to(rooted((units(a) * pow2(149)) as int), (units(a) * pow2(149)) as int),
        rooted((units(a) * pow2(149)) as int) < INFINITY,
{
    let m = lemma_root_rounds_to_exists(a);
}

/// Rounding keeps the order: of two numbers over the same denominator the
/// smaller does not round to the larger magnitude.
pub proof fn lemma_rounded_ordered(n1: int, n2: int, d: int)
    requires
        0 <= n1 <= n2,
        d > 0,
    ensures
        rounded(n1, d) <= rounded(n2, d),
{
    lemma_rounded_rounds(n1, d);
    lemma_rounded_rounds(n2, d);
    let m1 = rounded(n1, d);
    let m2 = rounded(n2, d);
    if m1 > m2 {
        let low = (units((m1 - 1) as nat) + units(m1)) as int;
        let up = (units(m2) + units(m2 + 1)) as int;
        lemma_units_ordered(m2, (m1 - 1) as nat);
        lemma_units_ordered(m2 + 1, m1);
        assert(up * d <= low * d) by (nonlinear_arith)
            requires
                up <= low,
                d > 0,
        ;
        assert(up == low) by (nonlinear_arith)
            requires
                up * d == low * d,
                d > 0,
        ;
        if m2 + 1 < m1 {
            lemma_scaled_of_increases(m2 + 1, m1, 23);
        }
    }
}

/// Taking the root keeps the order.
pub proof fn lemma_rooted_ordered(a1: nat, a2: nat)
    requires
        a1 <= a2 < INFINITY,
    ensures
        rooted((units(a1) * pow2(149)) as int) <= rooted((units(a2) * pow2(149)) as int),
{
    lemma_rooted_rounds(a1);
    lemma_rooted_rounds(a2);
    let v1 = (units(a1) * pow2(149)) as int;
    let v2 = (units(a2) * pow2(149)) as int;
    let m1 = rooted(v1);
    let m2 = rooted(v2);
    lemma_units_ordered(a1, a2);
    lemma_pow2_pos(149);
    assert(v1 <= v2) by (nonlinear_arith)
        requires
            v1 == units(a1) * pow2(149),
            v2 == units(a2) * pow2(149),
            units(a1) <= units(a2),
            pow2(149) > 0,
    ;
    if m1 > m2 {
        let low = (units((m1 - 1) as nat) + units(m1)) as int;
        let up = (units(m2) + units(m2 + 1)) as int;
        lemma_units_ordered(m2, (m1 - 1) as nat);
        lemma_units_ordered(m2 + 1, m1);
        assert(up * up <= low * low) by (nonlinear_arith)
            requires
                0 <= up <= low,
        ;
        assert(up == low) by (nonlinear_arith)
            requires
                up * up == low * low,
                0 <= up,
                0 <= low,
        ;
        if m2 + 1 < m1 {
            lemma_scaled_of_increases(m2 + 1, m1, 23);
        }
    }
}

/// A number that is at most what the magnitude `k` denotes rounds to `k` at
/// most: rounding keeps the order.
pub proof fn lemma_rounded_at_most(n: int, d: int, k: nat)
    requires
        n >= 0,
        d > 0,
        n <= units(k) * d,
    ensures
        rounded(n, d) <= k,
{
    lemma_rounded_rounds(n, d);
    let m = rounded(n, d);
    if m > k {
        lemma_units_ordered(k, (m - 1) as nat);
        lemma_scaled_of_increases(k, m, 23);
        let low = (units((m - 1) as nat) + units(m)) as int;
        let twice = 2 * units(k);
        assert(low * d > twice * d) by (nonlinear_arith)
            requires
                low > twice,
                d > 0,
        ;
        assert(twice * d == 2 * (units(k) * d)) by (nonlinear_arith)
            requires
                twice == 2 * units(k),
        ;
    }
}

/// A number that is at least what the magnitude `k` denotes rounds to `k` at
/// least.
pub proof fn lemma_rounded_at_least(n: int, d: int, k: nat)
    requires
        d > 0,
        k <= INFINITY,
        n >= units(k) * d,
    ensures
        rounded(n, d) >= k,
{
    lemma_rounded_exact(k, d);
    let exact = (units(k) * d) as int;
    assert(0 <= exact) by (nonlinear_arith)
        requires
            exact == units(k) * d,
            d > 0,
    ;
    lemma_rounded_ordered(exact, n, d);
}

/// Zero times a finite value is zero.
pub proof fn lemma_product_of_zero(a: Single, b: Single)
    requires
        a.zero() || b.zero(),
        a.finite(),
        b.finite(),
    ensures
        a.product(b).zero(),
        a.product(b).negative() == (a.negative() != b.negative()),
{
    lemma_scaled_of_zero(23);
    lemma_pow2_pos(149);
    lemma_rounded_exact(0, pow2(149) as int);
    assert(units(a.magnitude()) * units(b.magnitude()) == 0) by (nonlinear_arith)
        requires
            units(a.magnitude()) == 0 || units(b.magnitude()) == 0,
    ;
    assert(0 * pow2(149) == 0) by (nonlinear_arith);
}

/// Adding zero to a finite value changes nothing, but that negative zero
/// plus positive zero is positive zero.
pub proof fn lemma_sum_with_zero(a: Single, z: Single)
    requires
        a.finite(),
        z.zero(),
    ensures
        !a.zero() ==> a.sum(z) == a && z.sum(a) == a,
        a.zero() ==> a.sum(z).zero() && z.sum(a).zero(),
        a.sum(z).same_value(a),
        z.sum(a).same_value(a),
{
    lemma_scaled_of_zero(23);
    lemma_rounded_exact(a.magnitude(), 1);
    assert(units(a.magnitude()) * 1 == units(a.magnitude())) by (nonlinear_arith);
    if a.magnitude() > 0 {
        lemma_scaled_of_increases(0, a.magnitude(), 23);
    }
}

/// A finite value less itself is positive zero.
pub proof fn lemma_difference_of_equals(a: Single)
    requires
        a.finite(),
    ensures
        a.difference(a) == (Single { bits: 0 }),
        a.negated().sum(a) == (Single { bits: 0 }),
{
    lemma_scaled_of_zero(23);
    if a.magnitude() > 0 {
        lemma_scaled_of_increases(0, a.magnitude(), 23);
    }
}

/// The sum of two finite values of opposite sign is finite, and no larger
/// in magnitude than the larger of the two.
pub proof fn lemma_sum_of_opposites(a: Single, b: Single)
    requires
        a.finite(),
        b.finite(),
        a.negative() != b.negative(),
        b.magnitude() <= a.magnitude(),
    ensures
        a.sum(b).finite(),
        b.sum(a).finite(),
        a.sum(b).magnitude() <= a.magnitude(),
        b.sum(a).magnitude() <= a.magnitude(),
        !a.sum(b).zero() ==> a.sum(b).negative() == a.negative(),
        !b.sum(a).zero() ==> b.sum(a).negative() == a.negative(),
{
    lemma_units_ordered(b.magnitude(), a.magnitude());
    let ua = units(a.magnitude()) as int;
    let ub = units(b.magnitude()) as int;
    assert((ua - ub) <= ua * 1 && ua * 1 == ua) by (nonlinear_arith)
        requires
            0 <= ub <= ua,
    ;
    if ua - ub > 0 {
        lemma_rounded_at_most(ua - ub, 1, a.magnitude());
    }
}

/// What is left of a positive value `c` when more is taken from it is less:
/// for `s` and `t` between zero and `c`, with `s` not above `t`, `c - t` is
/// not above `c - s`. Neither is negative.
pub proof fn lemma_remainder_ordered(c: Single, s: Single, t: Single)
    requires
        c.finite(),
        !c.negative(),
        !s.negative(),
        !t.negative(),
        s.magnitude() <= t.magnitude() <= c.magnitude(),
    ensures
        t.negated().sum(c).magnitude() <= s.negated().sum(c).magnitude(),
        !t.negated().sum(c).negative(),
        !s.negated().sum(c).negative(),
        s.negated().sum(c).magnitude() <= c.magnitude(),
{
    lemma_units_ordered(s.magnitude(), t.magnitude());
    lemma_units_ordered(t.magnitude(), c.magnitude());
    let uc = units(c.magnitude()) as int;
    let us = units(s.magnitude()) as int;
    let ut = units(t.magnitude()) as int;
    lemma_scaled_of_zero(23);
    lemma_rounded_exact(0, 1);
    assert(0 * 1 == 0) by (nonlinear_arith);
    lemma_rounded_ordered(uc - ut, uc - us, 1);
    assert(uc * 1 == uc) by (nonlinear_arith);
    lemma_rounded_at_most(uc - us, 1, c.magnitude());
}

/// The product of a finite value and a value of at most one in magnitude is
/// finite.
pub proof fn lemma_product_with_fraction(a: Single, b: Single)
    requires
        a.finite(),
        b.magnitude() <= 0x3f80_0000,
    ensures
        a.product(b).finite(),
        b.product(a).finite(),
        a.product(b).magnitude() <= a.magnitude(),
        b.product(a).magnitude() <= a.magnitude(),
{
    lemma2_to64();
    let one = Single { bits: 0x3f80_0000 };
    lemma_scaled_normal(one, 127, 0);
    lemma_pow2_adds(23, 126);
    lemma_units_ordered(b.magnitude(), 0x3f80_0000);
    let ua = units(a.magnitude()) as int;
    let ub = units(b.magnitude()) as int;
    let d = pow2(149) as int;
    lemma_pow2_pos(149);
    assert(ua * ub <= ua * d && ub * ua == ua * ub) by (nonlinear_arith)
        requires
            0 <= ub <= d,
            ua >= 0,
    ;
    lemma_rounded_at_most(ua * ub, d, a.magnitude());
}

/// The product with a fixed finite value keeps the order of magnitudes.
pub proof fn lemma_product_ordered(a: Single, b: Single, k: Single)
    requires
        a.magnitude() <= b.magnitude(),
        b.finite(),
        k.finite(),
    ensures
        a.product(k).magnitude() <= b.product(k).magnitude(),
        a.product(k).negative() == (a.negative() != k.negative()),
        b.product(k).negative() == (b.negative() != k.negative()),
        !a.product(k).nan(),
        !b.product(k).nan(),
{
    lemma_units_ordered(a.magnitude(), b.magnitude());
    let ua = units(a.magnitude()) as int;
    let ub = units(b.magnitude()) as int;
    let uk = units(k.magnitude()) as int;
    lemma_pow2_pos(149);
    assert(0 <= ua * uk <= ub * uk) by (nonlinear_arith)
        requires
            0 <= ua <= ub,
            0 <= uk,
    ;
    lemma_rounded_ordered(ua * uk, ub * uk, pow2(149) as int);
    lemma_rounded_rounds(ua * uk, pow2(149) as int);
    lemma_rounded_rounds(ub * uk, pow2(149) as int);
}

/// The root of a square is exact: where a positive value `a` is the square
/// of a finite value `r` that is not negative, the root of `a` is `r`.
pub proof fn lemma_root_of_square(a: Single, r: Single)
    requires
        a.finite(),
        !a.negative(),
        !a.zero(),
        r.finite(),
        !r.negative(),
        units(a.magnitude()) * pow2(149) == units(r.magnitude()) * units(r.magnitude()),
    ensures
        a.root() == r,
{
    let m = r.magnitude();
    let k = units(m) as int;
    lemma_scaled_of_zero(23);
    lemma_scaled_of_increases(0, a.magnitude(), 23);
    lemma_pow2_pos(149);
    let ua = units(a.magnitude()) as int;
    let unit = pow2(149) as int;
    assert(ua * unit > 0) by (nonlinear_arith)
        requires
            ua > 0,
            unit > 0,
    ;
    assert(m > 0) by {
        if m == 0 {
            assert(k * k == 0) by (nonlinear_arith)
                requires
                    k == 0,
            ;
        }
    }
    lemma_scaled_of_increases((m - 1) as nat, m, 23);
    lemma_scaled_of_increases(m, m + 1, 23);
    let low = (units((m - 1) as nat) + units(m)) as int;
    let up = (units(m) + units(m + 1)) as int;
    assert(low * low < 4 * (k * k) && 4 * (k * k) < up * up) by (nonlinear_arith)
        requires
            0 <= low < 2 * k,
            up > 2 * k,
            k > 0,
    ;
    lemma_rooted(m, k * k);
}

/// The root of one is one.
pub proof fn lemma_root_of_one()
    ensures
        (Single { bits: 0x3f80_0000 }).root() == (Single { bits: 0x3f80_0000 }),
{
    lemma2_to64();
    let one = Single { bits: 0x3f80_0000 };
    lemma_scaled_normal(one, 127, 0);
    lemma_pow2_adds(23, 126);
    lemma_root_of_square(one, one);
}

/// The root of a finite value that is not negative is finite and not
/// negative.
pub proof fn lemma_root_finite(a: Single)
    requires
        a.finite(),
        !a.negative() || a.zero(),
    ensures
        a.root().finite(),
        !a.root().negative() || a.root().zero(),
{
    lemma_rooted_rounds(a.magnitude());
}

/// The root keeps the order of values that are not negative.
pub proof fn lemma_root_ordered(a: Single, b: Single)
    requires
        a.magnitude() <= b.magnitude(),
        b.finite(),
        !a.negative(),
        !b.negative(),
    ensures
        a.root().magnitude() <= b.root().magnitude(),
        !a.root().negative(),
        !b.root().negative(),
        b.root().finite(),
{
    lemma_rooted_ordered(a.magnitude(), b.magnitude());
    lemma_rooted_rounds(a.magnitude());
    lemma_rooted_rounds(b.magnitude());
    if a.zero() && !b.zero() {
    }
}

} // verus!
