//! How close rounding stays to the exact result, and how close the cap on
//! the walking speed therefore stays to the ground speed.
//!
//! A normal binary32 value has 24 significant bits, so its neighbours are
//! no further from it than one part in two to the power of 23. What rounds
//! to a normal value is therefore within that part of it, and so is the
//! square of what its root rounds to. The lemmas here state this over the
//! numbers that magnitudes denote, without fractions: `a` is within one part
//! in `2^23` of `b` where `a * 2^23 <= b * (2^23 + 1)`.
//!
//! Capping a velocity takes ten roundings from the components to the square
//! of the capped length. As long as none of them underflows or overflows,
//! the capped length is within one part in `2^20` of the ground speed.
use crate::arith::{lemma_rounded_exact, rooted, rounded};
use crate::arith_laws::{
    lemma_root_of_square, lemma_root_ordered, lemma_rooted_rounds, lemma_rounded_at_least,
    lemma_rounded_at_most, lemma_rounded_rounds,
};
use crate::ieee::lemma_scaled_of_zero;
use crate::motion::{airborne, direction_of, slowed, Physics, PhysicsProperties, TickInput};
use crate::rounding::{
    lemma_packed_units, lemma_units_ordered, root_rounds_to, rounds_to, units, INFINITY,
};
use crate::single::{lemma_scaled_normal, Single, ONE};
use crate::vector::{Vec2, Vec3};
use vstd::arithmetic::power2::*;
use vstd::prelude::*;

verus! {

/// The value is a normal number: finite, and large enough to have all its
/// significant bits.
pub open spec fn normal(x: Single) -> bool {
    0x80_0000 <= x.magnitude() < INFINITY
}

/// The neighbours of a normal magnitude are no further from it than one part
/// in `2^23` of what it denotes.
pub proof fn lemma_spacing(m: nat)
    requires
        0x80_0000 <= m < INFINITY,
    ensures
        (units(m + 1) - units(m)) * 0x80_0000 <= units(m),
        (units(m) - units((m - 1) as nat)) * 0x80_0000 <= units(m),
{
    lemma2_to64();
    let s = ((m / 0x80_0000) - 1) as nat;
    let q = (m - s * 0x80_0000) as nat;
    assert(0x80_0000 <= q < 0x100_0000);
    lemma_packed_units(q, s);
    lemma_packed_units(q + 1, s);
    assert(s * 0x80_0000 + q == m);
    assert(s * 0x80_0000 + (q + 1) == m + 1);
    let w = pow2(s) as int;
    lemma_pow2_pos(s);
    let here = units(m) as int;
    let above = units(m + 1) as int;
    let below = units((m - 1) as nat) as int;
    assert(above - here == w && w * 0x80_0000 <= here) by (nonlinear_arith)
        requires
            here == q * w,
            above == (q + 1) * w,
            q >= 0x80_0000,
            w > 0,
    ;
    if q > 0x80_0000 {
        lemma_packed_units((q - 1) as nat, s);
        assert(s * 0x80_0000 + (q - 1) == m - 1);
        assert(here - below == w) by (nonlinear_arith)
            requires
                here == q * w,
                below == (q - 1) * w,
        ;
    } else if s == 0 {
        lemma_packed_units(0x7f_ffff, 0);
        assert(0 * 0x80_0000 + 0x7f_ffff == m - 1);
        assert(here - below == 1) by (nonlinear_arith)
            requires
                here == q * w,
                below == 0x7f_ffff * w,
                w == 1,
                q == 0x80_0000,
        ;
    } else {
        let t = (s - 1) as nat;
        lemma_packed_units(0xff_ffff, t);
        assert(t * 0x80_0000 + 0xff_ffff == m - 1);
        lemma_pow2_unfold(s);
        let v = pow2(t) as int;
        lemma_pow2_pos(t);
        assert((here - below) * 0x80_0000 <= here) by (nonlinear_arith)
            requires
                here == q * w,
                below == 0xff_ffff * v,
                w == 2 * v,
                q == 0x80_0000,
                v > 0,
        ;
    }
}

/// What rounds to a normal magnitude is within one part in `2^23` of what
/// the magnitude denotes, from either side.
pub proof fn lemma_rounding_is_close(m: nat, n: int, d: int)
    requires
        d > 0,
        n >= 0,
        rounds_to(m, n, d),
        0x80_0000 <= m < INFINITY,
    ensures
        units(m) * d * 0x80_0000 <= n * 0x80_0001,
        n * 0x80_0000 <= units(m) * d * 0x80_0001,
{
    lemma_spacing(m);
    let here = units(m) as int;
    let above = units(m + 1) as int;
    let below = units((m - 1) as nat) as int;
    let p = here * d;
    assert(0xff_ffff * p <= 0x100_0000 * n) by (nonlinear_arith)
        requires
            (below + here) * d <= 2 * n,
            (here - below) * 0x80_0000 <= here,
            p == here * d,
            d > 0,
    ;
    assert(0x100_0000 * n <= 0x100_0001 * p) by (nonlinear_arith)
        requires
            2 * n <= (here + above) * d,
            (above - here) * 0x80_0000 <= here,
            p == here * d,
            d > 0,
    ;
    assert(units(m) * d * 0x80_0000 == p * 0x80_0000 && units(m) * d * 0x80_0001 == p
        * 0x80_0001);
}

/// Where a root rounds to a normal magnitude, the number under the root is
/// no more than the square of what the magnitude denotes and two parts in
/// `2^23` of it.
pub proof fn lemma_root_is_close(m: nat, v: int)
    requires
        v >= 0,
        root_rounds_to(m, v),
        0x80_0000 <= m,
    ensures
        v * (0x80_0000 * 0x80_0000) <= units(m) * units(m) * (0x80_0001 * 0x80_0001),
{
    lemma_spacing(m);
    let here = units(m) as int;
    let above = units(m + 1) as int;
    let up = here + above;
    let square = here * here;
    assert(up * 0x80_0000 <= 0x100_0001 * here);
    assert((up * up) * (0x80_0000 * 0x80_0000) <= (0x100_0001 * 0x100_0001) * square)
        by (nonlinear_arith)
        requires
            0 <= up * 0x80_0000 <= 0x100_0001 * here,
            square == here * here,
    ;
    let wide = up * up;
    assert(4 * v <= wide);
    assert(wide * (0x80_0000 * 0x80_0000) <= (0x100_0001 * 0x100_0001) * square);
    assert(0 <= square) by (nonlinear_arith)
        requires
            square == here * here,
    ;
    assert(v * (0x80_0000 * 0x80_0000) <= square * (0x80_0001 * 0x80_0001)) by (nonlinear_arith)
        requires
            4 * v <= wide,
            wide * (0x80_0000 * 0x80_0000) <= (0x100_0001 * 0x100_0001) * square,
            0 <= square,
    ;
    assert(units(m) * units(m) * (0x80_0001 * 0x80_0001) == square * (0x80_0001 * 0x80_0001));
}

/// A product that is a normal number, or has a zero factor, is within one
/// part in `2^23` of the exact product.
pub proof fn lemma_product_is_close(a: Single, b: Single)
    requires
        a.finite(),
        b.finite(),
        a.zero() || b.zero() || normal(a.product(b)),
    ensures
        a.product(b).finite(),
        a.product(b).negative() == (a.negative() != b.negative()),
        a.zero() || b.zero() ==> a.product(b).zero(),
        units(a.product(b).magnitude()) * pow2(149) * 0x80_0000 <= units(a.magnitude()) * units(
            b.magnitude(),
        ) * 0x80_0001,
        units(a.magnitude()) * units(b.magnitude()) * 0x80_0000 <= units(
            a.product(b).magnitude(),
        ) * pow2(149) * 0x80_0001,
{
    let ua = units(a.magnitude()) as int;
    let ub = units(b.magnitude()) as int;
    let n = ua * ub;
    let d = pow2(149) as int;
    lemma_pow2_pos(149);
    lemma_scaled_of_zero(23);
    assert(0 <= n) by (nonlinear_arith)
        requires
            n == ua * ub,
            0 <= ua,
            0 <= ub,
    ;
    lemma_rounded_rounds(n, d);
    let m = rounded(n, d);
    assert(a.product(b).magnitude() == m);
    if a.zero() || b.zero() {
        assert(n == 0) by (nonlinear_arith)
            requires
                n == ua * ub,
                ua == 0 || ub == 0,
        ;
        lemma_rounded_exact(0, d);
        assert(0 * d == 0) by (nonlinear_arith);
        assert(m == 0);
        assert(units(m) * d * 0x80_0000 == 0 && units(m) * d * 0x80_0001 == 0) by (nonlinear_arith)
            requires
                units(m) == 0,
        ;
    } else {
        lemma_rounding_is_close(m, n, d);
    }
}

/// A sum of two values that are not negative, where it is a normal number
/// or both are zero, is no less than the exact sum less one part in `2^23`.
pub proof fn lemma_sum_is_close(a: Single, b: Single)
    requires
        a.finite(),
        b.finite(),
        !a.negative(),
        !b.negative(),
        (a.zero() && b.zero()) || normal(a.sum(b)),
    ensures
        a.sum(b).finite(),
        !a.sum(b).negative(),
        a.zero() && b.zero() ==> a.sum(b).zero(),
        (units(a.magnitude()) + units(b.magnitude())) * 0x80_0000 <= units(a.sum(b).magnitude())
            * 0x80_0001,
{
    let ua = units(a.magnitude()) as int;
    let ub = units(b.magnitude()) as int;
    lemma_scaled_of_zero(23);
    if a.zero() && b.zero() {
    } else {
        let n = ua + ub;
        lemma_rounded_rounds(n, 1);
        let m = rounded(n, 1);
        if a.magnitude() > 0 {
            crate::ieee::lemma_scaled_of_increases(0, a.magnitude(), 23);
        }
        if b.magnitude() > 0 {
            crate::ieee::lemma_scaled_of_increases(0, b.magnitude(), 23);
        }
        assert(a.sum(b).magnitude() == m);
        lemma_rounding_is_close(m, n, 1);
        assert(units(m) * 1 * 0x80_0001 == units(m) * 0x80_0001) by (nonlinear_arith);
    }
}

/// The square of a root that is a normal number is no less than the value
/// under the root less two parts in `2^23`.
pub proof fn lemma_length_is_close(s: Single)
    requires
        s.finite(),
        !s.negative(),
        s.zero() || normal(s.root()),
    ensures
        s.root().finite(),
        !s.root().negative(),
        s.zero() ==> s.root().zero(),
        units(s.magnitude()) * pow2(149) * (0x80_0000 * 0x80_0000) <= units(s.root().magnitude())
            * units(s.root().magnitude()) * (0x80_0001 * 0x80_0001),
{
    lemma_scaled_of_zero(23);
    if s.zero() {
        assert(0 * pow2(149) * (0x80_0000 * 0x80_0000) == 0) by (nonlinear_arith);
        assert(0 * 0 * (0x80_0001 * 0x80_0001) == 0) by (nonlinear_arith);
    } else {
        let v = (units(s.magnitude()) * pow2(149)) as int;
        lemma_rooted_rounds(s.magnitude());
        let m = rooted(v);
        assert(s.root().magnitude() == m);
        assert(0 <= v) by (nonlinear_arith)
            requires
                v == units(s.magnitude()) * pow2(149),
        ;
        lemma_root_is_close(m, v);
    }
}

/// A quotient that is a normal number is no more than the exact quotient
/// and one part in `2^23` of it.
pub proof fn lemma_quotient_is_close(a: Single, b: Single)
    requires
        a.finite(),
        b.finite(),
        !b.zero(),
        normal(a.quotient(b)),
    ensures
        a.quotient(b).negative() == (a.negative() != b.negative()),
        units(a.quotient(b).magnitude()) * units(b.magnitude()) * 0x80_0000 <= units(
            a.magnitude(),
        ) * pow2(149) * 0x80_0001,
{
    let n = (units(a.magnitude()) * pow2(149)) as int;
    let d = units(b.magnitude()) as int;
    lemma_scaled_of_zero(23);
    crate::ieee::lemma_scaled_of_increases(0, b.magnitude(), 23);
    assert(0 <= n) by (nonlinear_arith)
        requires
            n == units(a.magnitude()) * pow2(149),
    ;
    lemma_rounded_rounds(n, d);
    let m = rounded(n, d);
    assert(a.quotient(b).magnitude() == m);
    lemma_rounding_is_close(m, n, d);
}

/// From the squares of the components to the square of the length: three
/// roundings, the last of them under the root.
proof fn lemma_length_chain(x2: int, y2: int, a: int, b: int, w: int, u2: int)
    by (nonlinear_arith)
    requires
        x2 * 0x80_0000 <= a * 0x80_0001,
        y2 * 0x80_0000 <= b * 0x80_0001,
        (a + b) * 0x80_0000 <= w * 0x80_0001,
        w * (0x80_0000 * 0x80_0000) <= u2 * (0x80_0001 * 0x80_0001),
    ensures
        (x2 + y2) * 4951760157141521099596496896 <= u2 * 4951762518325184746917724161,
{
}

proof fn lemma_scaled_up(a: int, b: int, c: int)
    by (nonlinear_arith)
    requires
        a <= b,
        0 <= c,
    ensures
        a * c <= b * c,
{
}

proof fn lemma_scaled_down(a: int, b: int, c: int)
    by (nonlinear_arith)
    requires
        a * c <= b * c,
        0 < c,
    ensures
        a <= b,
{
}

/// Two bounds, each up to a factor, make one bound up to the product of the
/// factors.
proof fn lemma_bounds_chain(a: int, p: int, b: int, q: int, r: int, c: int, s: int)
    requires
        0 <= a,
        0 <= b,
        0 <= q,
        0 <= r,
        a * p <= b * q,
        b * r <= c * s,
    ensures
        a * (p * r) <= c * (q * s),
{
    let ap = a * p;
    let bq = b * q;
    let br = b * r;
    let cs = c * s;
    lemma_scaled_up(ap, bq, r);
    lemma_scaled_up(br, cs, q);
    assert(bq * r == br * q) by (nonlinear_arith)
        requires
            bq == b * q,
            br == b * r,
    ;
    assert(ap * r == a * (p * r)) by (nonlinear_arith)
        requires
            ap == a * p,
    ;
    assert(cs * q == c * (q * s)) by (nonlinear_arith)
        requires
            cs == c * s,
    ;
}

/// From a component of the velocity to the same component capped: the
/// quotient and two products, each rounded.
proof fn lemma_component_chain(out: int, mid: int, r: int, ul: int, x: int, c: int, d: int)
    requires
        0 <= out,
        0 <= mid,
        0 <= r,
        0 <= ul,
        0 <= x,
        0 <= c,
        0 < d,
        out * d * 0x80_0000 <= mid * c * 0x80_0001,
        mid * d * 0x80_0000 <= x * r * 0x80_0001,
        r * ul * 0x80_0000 <= d * d * 0x80_0001,
    ensures
        out * ul * 590295810358705651712 <= x * c * 590296021464963350529,
{
    let h: int = 0x80_0000;
    let g: int = 0x80_0001;
    let dh = d * h;
    let cg = c * g;
    let xg = x * g;
    let uh = ul * h;
    let dd = d * d;
    let ddg = dd * g;
    assert(0 <= dh && 0 <= cg && 0 <= xg && 0 <= uh && 0 < dd && 0 <= ddg) by (nonlinear_arith)
        requires
            dh == d * h,
            cg == c * g,
            xg == x * g,
            uh == ul * h,
            dd == d * d,
            ddg == dd * g,
            0 < d,
            0 <= c,
            0 <= x,
            0 <= ul,
            0 < h,
            0 < g,
    ;
    // out * dh <= mid * cg and mid * dh <= r * xg.
    assert(out * dh == out * d * h) by (nonlinear_arith)
        requires
            dh == d * h,
    ;
    assert(mid * cg == mid * c * g) by (nonlinear_arith)
        requires
            cg == c * g,
    ;
    assert(mid * dh == mid * d * h) by (nonlinear_arith)
        requires
            dh == d * h,
    ;
    assert(r * xg == x * r * g) by (nonlinear_arith)
        requires
            xg == x * g,
    ;
    lemma_bounds_chain(out, dh, mid, cg, dh, r, xg);
    // out * (dh * dh) <= r * (cg * xg), and r * uh <= ddg * 1.
    let dhdh = dh * dh;
    let cgxg = cg * xg;
    assert(0 <= cgxg) by (nonlinear_arith)
        requires
            cgxg == cg * xg,
            0 <= cg,
            0 <= xg,
    ;
    assert(r * uh == r * ul * h) by (nonlinear_arith)
        requires
            uh == ul * h,
    ;
    assert(ddg * 1 == d * d * g) by (nonlinear_arith)
        requires
            ddg == dd * g,
            dd == d * d,
    ;
    lemma_bounds_chain(out, dhdh, r, cgxg, uh, ddg, 1);
    // out * (dh * dh * uh) <= ddg * (cg * xg): both sides hold d * d.
    let hh = h * h;
    let hhh = hh * h;
    let gg = g * g;
    let ggg = gg * g;
    let left = out * ul * hhh;
    let right = x * c * ggg;
    assert(dhdh == dd * hh) by (nonlinear_arith)
        requires
            dhdh == dh * dh,
            dh == d * h,
            dd == d * d,
            hh == h * h,
    ;
    assert(dhdh * uh == dd * (ul * hhh)) by (nonlinear_arith)
        requires
            dhdh == dd * hh,
            uh == ul * h,
            hhh == hh * h,
    ;
    let ulhhh = ul * hhh;
    assert(out * (dd * ulhhh) == left * dd) by (nonlinear_arith)
        requires
            left == out * ul * hhh,
            ulhhh == ul * hhh,
    ;
    let xc = x * c;
    assert(cgxg == xc * gg) by (nonlinear_arith)
        requires
            cgxg == cg * xg,
            cg == c * g,
            xg == x * g,
            xc == x * c,
            gg == g * g,
    ;
    let xcgg = xc * gg;
    assert(ddg * (xcgg * 1) == (xc * ggg) * dd) by (nonlinear_arith)
        requires
            ddg == dd * g,
            xcgg == xc * gg,
            ggg == gg * g,
    ;
    assert(right == xc * ggg) by (nonlinear_arith)
        requires
            right == x * c * ggg,
            xc == x * c,
    ;
    assert(left * dd <= right * dd);
    lemma_scaled_down(left, right, dd);
    assert(hhh == 590295810358705651712 && ggg == 590296021464963350529) by (nonlinear_arith)
        requires
            h == 0x80_0000,
            g == 0x80_0001,
            hh == h * h,
            hhh == hh * h,
            gg == g * g,
            ggg == gg * g,
    ;
}

proof fn lemma_square_chain(out: int, ul: int, x: int, c: int)
    requires
        0 <= out,
        0 <= ul,
        0 <= x,
        0 <= c,
        out * ul * 590295810358705651712 <= x * c * 590296021464963350529,
    ensures
        (out * out) * (ul * ul) * (590295810358705651712 * 590295810358705651712) <= (x * x) * (c
            * c) * (590296021464963350529 * 590296021464963350529),
{
    let k: int = 590295810358705651712;
    let g: int = 590296021464963350529;
    let p = out * ul * k;
    let q = x * c * g;
    assert(0 <= p) by (nonlinear_arith)
        requires
            p == out * ul * k,
            0 <= out,
            0 <= ul,
            0 <= k,
    ;
    assert(p * p <= q * q) by (nonlinear_arith)
        requires
            0 <= p <= q,
    ;
    assert(p * p == (out * out) * (ul * ul) * (k * k)) by (nonlinear_arith)
        requires
            p == out * ul * k,
    ;
    assert(q * q == (x * x) * (c * c) * (g * g)) by (nonlinear_arith)
        requires
            q == x * c * g,
    ;
}

proof fn lemma_both_chains(
    ox2: int,
    oy2: int,
    x2: int,
    y2: int,
    u2: int,
    c2: int,
    kk: int,
    gg: int,
    h4: int,
    g4: int,
)
    requires
        0 <= ox2,
        0 <= oy2,
        0 <= x2,
        0 <= y2,
        0 < u2,
        0 <= c2,
        0 <= kk,
        0 <= gg,
        0 <= h4,
        0 <= g4,
        ox2 * u2 * kk <= x2 * c2 * gg,
        oy2 * u2 * kk <= y2 * c2 * gg,
        (x2 + y2) * h4 <= u2 * g4,
    ensures
        (ox2 + oy2) * kk * h4 <= c2 * gg * g4,
{
    let out = (ox2 + oy2) * u2 * kk;
    let mid = (x2 + y2) * c2 * gg;
    assert(out <= mid) by (nonlinear_arith)
        requires
            out == (ox2 + oy2) * u2 * kk,
            mid == (x2 + y2) * c2 * gg,
            ox2 * u2 * kk <= x2 * c2 * gg,
            oy2 * u2 * kk <= y2 * c2 * gg,
    ;
    lemma_scaled_up(out, mid, h4);
    let n = (x2 + y2) * h4;
    let m = u2 * g4;
    let t = c2 * gg;
    assert(0 <= t) by (nonlinear_arith)
        requires
            t == c2 * gg,
            0 <= c2,
            0 <= gg,
    ;
    lemma_scaled_up(n, m, t);
    assert(mid * h4 == n * t) by (nonlinear_arith)
        requires
            mid == (x2 + y2) * c2 * gg,
            n == (x2 + y2) * h4,
            t == c2 * gg,
    ;
    let left = (ox2 + oy2) * kk * h4;
    let right = c2 * gg * g4;
    assert(out * h4 == left * u2) by (nonlinear_arith)
        requires
            out == (ox2 + oy2) * u2 * kk,
            left == (ox2 + oy2) * kk * h4,
    ;
    assert(m * t == right * u2) by (nonlinear_arith)
        requires
            m == u2 * g4,
            t == c2 * gg,
            right == c2 * gg * g4,
    ;
    lemma_scaled_down(left, right, u2);
}

/// Ten roundings stay within one part in `2^20`, squared.
proof fn lemma_ten_steps(a2: int, c2: int, kk: int, gg: int)
    by (nonlinear_arith)
    requires
        0 <= a2,
        0 <= c2,
        kk == 590295810358705651712 * 590295810358705651712,
        gg == 590296021464963350529 * 590296021464963350529,
        a2 * kk * 4951760157141521099596496896 <= c2 * gg * 4951762518325184746917724161,
    ensures
        a2 * (0x10_0000 * 0x10_0000) <= c2 * (0x10_0001 * 0x10_0001),
{
}

/// Four roundings stay within one part in `2^20`, squared.
proof fn lemma_four_steps(n2: int, u2: int, c2: int)
    by (nonlinear_arith)
    requires
        0 <= n2,
        0 <= u2 <= c2,
        n2 * 4951760157141521099596496896 <= u2 * 4951762518325184746917724161,
    ensures
        n2 * (0x10_0000 * 0x10_0000) <= c2 * (0x10_0001 * 0x10_0001),
{
}

/// The square of the exact length of a vector with finite components, in
/// units of two to the power of minus 149, squared.
pub open spec fn exact_square(v: Vec2) -> int {
    v.x.scaled() * v.x.scaled() + v.y.scaled() * v.y.scaled()
}

/// No step of capping `walking` underflows or overflows. The components are
/// finite; their squares, the sum of the squares and its root are normal
/// numbers, or zero where what they are made of is zero; and where the
/// length is above the ground speed, so are one over the length, the
/// components brought to length one and the components brought to the
/// ground speed.
pub open spec fn cap_stays_normal(profile: PhysicsProperties, walking: Vec2) -> bool {
    let cap = profile.movement_speed_ground;
    let x = walking.x;
    let y = walking.y;
    let total = x.product(x).sum(y.product(y));
    let length = walking.length_of();
    let factor = (Single { bits: ONE }).quotient(length);
    let unit = walking.normalized();
    let out = unit.times(cap);
    &&& x.finite()
    &&& y.finite()
    &&& x.zero() || normal(x.product(x))
    &&& y.zero() || normal(y.product(y))
    &&& (x.zero() && y.zero()) || (normal(total) && normal(length))
    &&& cap.less(length) ==> {
        &&& normal(factor)
        &&& x.zero() || (normal(unit.x) && normal(out.x))
        &&& y.zero() || (normal(unit.y) && normal(out.y))
    }
}

/// The cap holds up to rounding: where no step of the capping underflows or
/// overflows, the exact length of the capped walking velocity is at most the
/// ground speed and one part in `2^20` of it, about a millionth. The
/// velocity that is left alone is within that bound too.
pub proof fn lemma_cap_limits_speed(profile: PhysicsProperties, walking: Vec2)
    requires
        profile.valid(),
        cap_stays_normal(profile, walking),
    ensures
        profile.capped(walking).x.finite(),
        profile.capped(walking).y.finite(),
        exact_square(profile.capped(walking)) * (0x10_0000 * 0x10_0000)
            <= profile.movement_speed_ground.scaled() * profile.movement_speed_ground.scaled() * (
        0x10_0001 * 0x10_0001),
{
    let cap = profile.movement_speed_ground;
    let x = walking.x;
    let y = walking.y;
    let xx = x.product(x);
    let yy = y.product(y);
    let total = xx.sum(yy);
    let length = walking.length_of();
    let one = Single { bits: ONE };
    let d = pow2(149) as int;
    lemma_pow2_pos(149);
    lemma_scaled_of_zero(23);
    lemma_product_is_close(x, x);
    lemma_product_is_close(y, y);
    lemma_sum_is_close(xx, yy);
    lemma_length_is_close(total);
    let ux = units(x.magnitude()) as int;
    let uy = units(y.magnitude()) as int;
    let ul = units(length.magnitude()) as int;
    let uc = units(cap.magnitude()) as int;
    let x2 = ux * ux;
    let y2 = uy * uy;
    let u2 = ul * ul;
    let c2 = uc * uc;
    let qx = units(xx.magnitude()) as int;
    let qy = units(yy.magnitude()) as int;
    let us = units(total.magnitude()) as int;
    let a = qx * d;
    let b = qy * d;
    let w = us * d;
    assert((a + b) * 0x80_0000 <= w * 0x80_0001) by (nonlinear_arith)
        requires
            (qx + qy) * 0x80_0000 <= us * 0x80_0001,
            a == qx * d,
            b == qy * d,
            w == us * d,
            d > 0,
    ;
    assert(w * (0x80_0000 * 0x80_0000) == us * d * (0x80_0000 * 0x80_0000));
    assert(u2 * (0x80_0001 * 0x80_0001) == ul * ul * (0x80_0001 * 0x80_0001));
    assert(a * 0x80_0001 == qx * d * 0x80_0001 && b * 0x80_0001 == qy * d * 0x80_0001);
    assert(x2 * 0x80_0000 == ux * ux * 0x80_0000 && y2 * 0x80_0000 == uy * uy * 0x80_0000);
    lemma_length_chain(x2, y2, a, b, w, u2);
    assert(0 <= x2 && 0 <= y2 && 0 <= u2 && 0 <= c2) by (nonlinear_arith)
        requires
            x2 == ux * ux,
            y2 == uy * uy,
            u2 == ul * ul,
            c2 == uc * uc,
    ;
    assert(cap.scaled() * cap.scaled() == c2) by (nonlinear_arith)
        requires
            cap.scaled() == uc || cap.scaled() == -uc,
            c2 == uc * uc,
    ;
    let capped = profile.capped(walking);
    if cap.less(length) {
        let factor = one.quotient(length);
        let unit = walking.normalized();
        let out = unit.times(cap);
        assert(capped == out);
        lemma2_to64();
        lemma_scaled_normal(one, 127, 0);
        lemma_pow2_adds(23, 126);
        assert(units(one.magnitude()) == d);
        lemma_quotient_is_close(one, length);
        let r = units(factor.magnitude()) as int;
        lemma_product_is_close(x, factor);
        lemma_product_is_close(y, factor);
        lemma_product_is_close(unit.x, cap);
        lemma_product_is_close(unit.y, cap);
        let mx = units(unit.x.magnitude()) as int;
        let my = units(unit.y.magnitude()) as int;
        let ox = units(out.x.magnitude()) as int;
        let oy = units(out.y.magnitude()) as int;
        assert(r * ul * 0x80_0000 <= d * d * 0x80_0001);
        lemma_component_chain(ox, mx, r, ul, ux, uc, d);
        lemma_component_chain(oy, my, r, ul, uy, uc, d);
        lemma_square_chain(ox, ul, ux, uc);
        lemma_square_chain(oy, ul, uy, uc);
        let kk: int = 590295810358705651712int * 590295810358705651712int;
        let gg: int = 590296021464963350529int * 590296021464963350529int;
        let ox2 = ox * ox;
        let oy2 = oy * oy;
        assert(0 <= ox2 && 0 <= oy2) by (nonlinear_arith)
            requires
                ox2 == ox * ox,
                oy2 == oy * oy,
        ;
        crate::ieee::lemma_scaled_of_increases(0, length.magnitude(), 23);
        assert(0 < u2) by (nonlinear_arith)
            requires
                u2 == ul * ul,
                0 < ul,
        ;
        lemma_both_chains(
            ox2,
            oy2,
            x2,
            y2,
            u2,
            c2,
            kk,
            gg,
            4951760157141521099596496896,
            4951762518325184746917724161,
        );
        lemma_ten_steps(ox2 + oy2, c2, kk, gg);
        assert(exact_square(out) == ox2 + oy2) by (nonlinear_arith)
            requires
                exact_square(out) == out.x.scaled() * out.x.scaled() + out.y.scaled()
                    * out.y.scaled(),
                out.x.scaled() == ox || out.x.scaled() == -ox,
                out.y.scaled() == oy || out.y.scaled() == -oy,
                ox2 == ox * ox,
                oy2 == oy * oy,
        ;
    } else {
        assert(capped == walking);
        lemma_units_ordered(length.magnitude(), cap.magnitude());
        assert(u2 <= c2) by (nonlinear_arith)
            requires
                0 <= ul <= uc,
                u2 == ul * ul,
                c2 == uc * uc,
        ;
        lemma_four_steps(x2 + y2, u2, c2);
        assert(exact_square(walking) == x2 + y2) by (nonlinear_arith)
            requires
                exact_square(walking) == x.scaled() * x.scaled() + y.scaled() * y.scaled(),
                x.scaled() == ux || x.scaled() == -ux,
                y.scaled() == uy || y.scaled() == -uy,
                x2 == ux * ux,
                y2 == uy * uy,
        ;
    }
}

/// The walking velocity that a tick hands to the cap: the velocity of the
/// state, slowed by friction if the character stands on the ground, with the
/// acceleration of the tick added.
pub open spec fn walking_before_cap(
    state: Physics,
    translation: Vec3,
    profile: PhysicsProperties,
    input: TickInput,
) -> Vec2 {
    let course = direction_of(input.controls.intent_of(), input.yaw);
    let in_air = airborne(translation.y);
    let walking = if in_air {
        state.walking_velocity
    } else {
        slowed(state.walking_velocity, input.dt)
    };
    walking.plus(profile.acceleration_of(course, in_air).times(input.dt))
}

/// After a tick the walking speed is within the ground speed up to
/// rounding: where no step of the capping underflows or overflows, the
/// exact length of the walking velocity that the tick leaves is at most the
/// ground speed and one part in `2^20` of it.
pub proof fn lemma_tick_limits_speed(
    state: Physics,
    translation: Vec3,
    profile: PhysicsProperties,
    input: TickInput,
)
    requires
        profile.valid(),
        cap_stays_normal(profile, walking_before_cap(state, translation, profile, input)),
    ensures
        state.ticked(translation, profile, input).0.walking_velocity == profile.capped(
            walking_before_cap(state, translation, profile, input),
        ),
        exact_square(state.ticked(translation, profile, input).0.walking_velocity) * (0x10_0000
            * 0x10_0000) <= profile.movement_speed_ground.scaled()
            * profile.movement_speed_ground.scaled() * (0x10_0001 * 0x10_0001),
{
    lemma_cap_limits_speed(profile, walking_before_cap(state, translation, profile, input));
}

/// The magnitude of the power of two with the exponent field `e`.
pub open spec fn power_bits(e: nat) -> nat {
    e * 0x80_0000
}

/// The value is zero, or its magnitude lies between the powers of two with
/// the exponent fields `lo` and `hi`.
pub open spec fn zero_or_within(x: Single, lo: nat, hi: nat) -> bool {
    x.zero() || power_bits(lo) <= x.magnitude() <= power_bits(hi)
}

/// What a power of two denotes.
proof fn lemma_power_units(e: nat)
    requires
        1 <= e,
    ensures
        units(power_bits(e)) == pow2(e + 22),
{
    lemma2_to64();
    lemma_packed_units(0x80_0000, (e - 1) as nat);
    lemma_pow2_adds(23, (e - 1) as nat);
    assert((e - 1) * 0x80_0000 + 0x80_0000 == e * 0x80_0000);
}

proof fn lemma_products_ordered(a: int, b: int, c: int, d: int)
    by (nonlinear_arith)
    requires
        0 <= a <= b,
        0 <= c <= d,
    ensures
        a * c <= b * d,
{
}

/// The product of two values within powers of two lies within the products
/// of those powers.
proof fn lemma_product_within(a: Single, b: Single, la: nat, ha: nat, lb: nat, hb: nat)
    requires
        1 <= la <= ha,
        1 <= lb <= hb,
        128 <= la + lb,
        ha <= 254,
        hb <= 254,
        ha + hb <= 381,
        power_bits(la) <= a.magnitude() <= power_bits(ha),
        power_bits(lb) <= b.magnitude() <= power_bits(hb),
    ensures
        power_bits((la + lb - 127) as nat) <= a.product(b).magnitude() <= power_bits(
            (ha + hb - 127) as nat,
        ),
        normal(a.product(b)),
{
    let ua = units(a.magnitude()) as int;
    let ub = units(b.magnitude()) as int;
    let d = pow2(149) as int;
    lemma_pow2_pos(149);
    lemma_units_ordered(power_bits(la), a.magnitude());
    lemma_units_ordered(a.magnitude(), power_bits(ha));
    lemma_units_ordered(power_bits(lb), b.magnitude());
    lemma_units_ordered(b.magnitude(), power_bits(hb));
    lemma_power_units(la);
    lemma_power_units(ha);
    lemma_power_units(lb);
    lemma_power_units(hb);
    let low = (la + lb - 127) as nat;
    let high = (ha + hb - 127) as nat;
    lemma_power_units(low);
    lemma_power_units(high);
    lemma_pow2_adds(la + 22, lb + 22);
    lemma_pow2_adds(ha + 22, hb + 22);
    lemma_pow2_adds(low + 22, 149);
    lemma_pow2_adds(high + 22, 149);
    lemma_products_ordered(pow2(la + 22) as int, ua, pow2(lb + 22) as int, ub);
    lemma_products_ordered(ua, pow2(ha + 22) as int, ub, pow2(hb + 22) as int);
    let n = ua * ub;
    assert(la + 22 + (lb + 22) == low + 22 + 149);
    assert(ha + 22 + (hb + 22) == high + 22 + 149);
    lemma_rounded_at_least(n, d, power_bits(low));
    lemma_rounded_at_most(n, d, power_bits(high));
    lemma_rounded_rounds(n, d);
}

/// The sum of two values that are not negative, each zero or within powers
/// of two and not both zero, lies within those powers, the upper one
/// doubled.
proof fn lemma_sum_within(a: Single, b: Single, lo: nat, hi: nat)
    requires
        1 <= lo <= hi,
        hi <= 253,
        !a.negative(),
        !b.negative(),
        zero_or_within(a, lo, hi),
        zero_or_within(b, lo, hi),
        !(a.zero() && b.zero()),
    ensures
        power_bits(lo) <= a.sum(b).magnitude() <= power_bits(hi + 1),
        normal(a.sum(b)),
        !a.sum(b).negative(),
{
    let ua = units(a.magnitude()) as int;
    let ub = units(b.magnitude()) as int;
    lemma_scaled_of_zero(23);
    lemma_power_units(lo);
    lemma_power_units(hi);
    lemma_power_units(hi + 1);
    lemma_pow2_unfold(hi + 23);
    lemma_pow2_pos(lo + 22);
    if !a.zero() {
        lemma_units_ordered(power_bits(lo), a.magnitude());
        lemma_units_ordered(a.magnitude(), power_bits(hi));
    }
    if !b.zero() {
        lemma_units_ordered(power_bits(lo), b.magnitude());
        lemma_units_ordered(b.magnitude(), power_bits(hi));
    }
    let n = ua + ub;
    assert(units(power_bits(lo)) * 1 == units(power_bits(lo))) by (nonlinear_arith);
    assert(units(power_bits(hi + 1)) * 1 == units(power_bits(hi + 1))) by (nonlinear_arith);
    lemma_rounded_at_least(n, 1, power_bits(lo));
    lemma_rounded_at_most(n, 1, power_bits(hi + 1));
    lemma_rounded_rounds(n, 1);
}

/// The root of a value within two even powers of two lies within their
/// roots.
proof fn lemma_root_within(s: Single, lo: nat, hi: nat)
    requires
        64 <= lo <= hi,
        hi <= 190,
        !s.negative(),
        power_bits((2 * lo - 127) as nat) <= s.magnitude() <= power_bits((2 * hi - 127) as nat),
    ensures
        power_bits(lo) <= s.root().magnitude() <= power_bits(hi),
        normal(s.root()),
        !s.root().negative(),
{
    let below = Single { bits: power_bits((2 * lo - 127) as nat) as u32 };
    let above = Single { bits: power_bits((2 * hi - 127) as nat) as u32 };
    let root_below = Single { bits: power_bits(lo) as u32 };
    let root_above = Single { bits: power_bits(hi) as u32 };
    lemma_power_units((2 * lo - 127) as nat);
    lemma_power_units((2 * hi - 127) as nat);
    lemma_power_units(lo);
    lemma_power_units(hi);
    lemma_pow2_adds((2 * lo - 127 + 22) as nat, 149);
    lemma_pow2_adds((2 * hi - 127 + 22) as nat, 149);
    lemma_pow2_adds(lo + 22, lo + 22);
    lemma_pow2_adds(hi + 22, hi + 22);
    assert(2 * lo - 127 + 22 + 149 == lo + 22 + (lo + 22));
    assert(2 * hi - 127 + 22 + 149 == hi + 22 + (hi + 22));
    lemma_root_of_square(below, root_below);
    lemma_root_of_square(above, root_above);
    lemma_root_ordered(below, s);
    lemma_root_ordered(s, above);
}

/// One over a positive value within powers of two lies within one over
/// those powers.
proof fn lemma_reciprocal_within(b: Single, lo: nat, hi: nat)
    requires
        1 <= lo <= hi,
        hi <= 253,
        !b.negative(),
        power_bits(lo) <= b.magnitude() <= power_bits(hi),
    ensures
        power_bits((254 - hi) as nat) <= (Single { bits: ONE }).quotient(b).magnitude()
            <= power_bits((254 - lo) as nat),
        normal((Single { bits: ONE }).quotient(b)),
        !(Single { bits: ONE }).quotient(b).negative(),
{
    let one = Single { bits: ONE };
    let ub = units(b.magnitude()) as int;
    let d = pow2(149) as int;
    lemma2_to64();
    assert(one.magnitude() == power_bits(127));
    lemma_power_units(127);
    lemma_power_units(lo);
    lemma_power_units(hi);
    lemma_power_units((254 - hi) as nat);
    lemma_power_units((254 - lo) as nat);
    lemma_units_ordered(power_bits(lo), b.magnitude());
    lemma_units_ordered(b.magnitude(), power_bits(hi));
    lemma_pow2_pos(lo + 22);
    lemma_pow2_adds(149, 149);
    lemma_pow2_adds((254 - hi + 22) as nat, hi + 22);
    lemma_pow2_adds((254 - lo + 22) as nat, lo + 22);
    let n = d * d;
    let least = pow2((254 - hi + 22) as nat) as int;
    let most = pow2((254 - lo + 22) as nat) as int;
    lemma_products_ordered(least, least, ub, pow2(hi + 22) as int);
    lemma_products_ordered(most, most, pow2(lo + 22) as int, ub);
    lemma_rounded_at_least(n, ub, power_bits((254 - hi) as nat));
    lemma_rounded_at_most(n, ub, power_bits((254 - lo) as nat));
    lemma_rounded_rounds(n, ub);
}

/// The value is zero, or its magnitude lies between two to the power of
/// minus 30 and two to the power of 30: about a billionth and a billion.
pub open spec fn moderate(x: Single) -> bool {
    zero_or_within(x, 97, 157)
}

/// Velocities and speeds of moderate size are capped without underflow or
/// overflow: where the ground speed and both components of the walking
/// velocity are moderate, no step of the capping leaves the normal numbers.
pub proof fn lemma_moderate_stays_normal(profile: PhysicsProperties, walking: Vec2)
    requires
        profile.valid(),
        moderate(profile.movement_speed_ground),
        moderate(walking.x),
        moderate(walking.y),
    ensures
        cap_stays_normal(profile, walking),
{
    let cap = profile.movement_speed_ground;
    let x = walking.x;
    let y = walking.y;
    let xx = x.product(x);
    let yy = y.product(y);
    let total = xx.sum(yy);
    let length = walking.length_of();
    let factor = (Single { bits: ONE }).quotient(length);
    let unit = walking.normalized();
    if !x.zero() {
        lemma_product_within(x, x, 97, 157, 97, 157);
    }
    if !y.zero() {
        lemma_product_within(y, y, 97, 157, 97, 157);
    }
    lemma_product_is_close(x, x);
    lemma_product_is_close(y, y);
    if x.zero() && y.zero() {
        lemma_sum_is_close(xx, yy);
    } else {
        lemma_sum_within(xx, yy, 67, 187);
        lemma_root_within(total, 97, 158);
        if cap.less(length) {
            lemma_reciprocal_within(length, 97, 158);
            if !x.zero() {
                lemma_product_within(x, factor, 97, 157, 96, 157);
                lemma_product_within(unit.x, cap, 66, 187, 97, 157);
            }
            if !y.zero() {
                lemma_product_within(y, factor, 97, 157, 96, 157);
                lemma_product_within(unit.y, cap, 66, 187, 97, 157);
            }
        }
    }
}

} // verus!
