//! Rounding to binary64: the same definition as for binary32, with a
//! fraction of 52 bits and units of two to the power of minus 1074.
use crate::ieee::{lemma_scaled_of_increases, lemma_scaled_of_zero, scaled_of};
use crate::rounding::{bit_length, power_of_two, stands_for};
use vstd::arithmetic::div_mod::*;
use vstd::arithmetic::power2::*;
use vstd::prelude::*;

verus! {

/// The magnitude bits of infinity.
pub const INFINITY: u64 = 0x7ff0_0000_0000_0000;

/// The number that the magnitude `m` denotes, in units of two to the power of
/// minus 1074.
pub open spec fn units(m: nat) -> nat {
    scaled_of(m, 52)
}

/// The number `n / d` is not nearer to the magnitude below `m` than to `m`,
/// and if it is as near to both, `m` is even.
pub open spec fn from_below(m: nat, n: int, d: int) -> bool {
    m > 0 ==> {
        ||| (units((m - 1) as nat) + units(m)) * d < 2 * n
        ||| (units((m - 1) as nat) + units(m)) * d == 2 * n && m % 2 == 0
    }
}

/// The number `n / d` is not nearer to the magnitude above `m` than to `m`,
/// and if it is as near to both, `m` is even.
pub open spec fn from_above(m: nat, n: int, d: int) -> bool {
    ||| 2 * n < (units(m) + units(m + 1)) * d
    ||| 2 * n == (units(m) + units(m + 1)) * d && m % 2 == 0
}

/// The magnitude `m` is what the number `n / d`, which is not negative,
/// rounds to. The number lies between the midpoints to the neighbours of `m`;
/// it may lie on such a midpoint only if `m` is even. At infinity only the
/// midpoint below counts, at zero only the one above.
pub open spec fn rounds_to(m: nat, n: int, d: int) -> bool {
    &&& m <= INFINITY
    &&& from_below(m, n, d)
    &&& m < INFINITY ==> from_above(m, n, d)
}

/// A number rounds to one magnitude only.
pub proof fn lemma_rounds_to_unique(a: nat, b: nat, n: int, d: int)
    requires
        d > 0,
        rounds_to(a, n, d),
        rounds_to(b, n, d),
    ensures
        a == b,
{
    if a <= b {
        lemma_rounding_intervals_apart(a, b, n, d);
    } else {
        lemma_rounding_intervals_apart(b, a, n, d);
    }
}

pub(crate) proof fn lemma_units_ordered(a: nat, b: nat)
    requires
        a <= b,
    ensures
        units(a) <= units(b),
{
    if a < b {
        lemma_scaled_of_increases(a, b, 52);
    }
}

proof fn lemma_rounding_intervals_apart(a: nat, b: nat, n: int, d: int)
    requires
        d > 0,
        a <= b,
        rounds_to(a, n, d),
        rounds_to(b, n, d),
    ensures
        a == b,
{
    if a == b {
        return ;
    }
    let up = units(a) + units(a + 1);
    let low = units((b - 1) as nat) + units(b);
    lemma_units_ordered(a, (b - 1) as nat);
    lemma_units_ordered(a + 1, b);
    assert(up <= low);
    assert(up * d <= low * d) by (nonlinear_arith)
        requires
            up <= low,
            d > 0,
    ;
    // Both bounds meet at the number itself, so both are ties and the two
    // sums agree, which makes the magnitudes neighbours: one of them is odd.
    assert(up * d == 2 * n && low * d == 2 * n);
    assert(up == low) by (nonlinear_arith)
        requires
            up * d == low * d,
            d > 0,
    ;
    if a + 1 < b {
        lemma_scaled_of_increases(a + 1, b, 52);
    }
}

/// The least magnitude up to `k` that `n / d` is not too large for.
proof fn lemma_least_from_above(k: nat, n: int, d: int) -> (m: nat)
    requires
        k == INFINITY || from_above(k, n, d),
        k <= INFINITY,
    ensures
        m <= k,
        m == INFINITY || from_above(m, n, d),
        m > 0 ==> !from_above((m - 1) as nat, n, d),
    decreases k,
{
    if k == 0 || !from_above((k - 1) as nat, n, d) {
        k
    } else {
        lemma_least_from_above((k - 1) as nat, n, d)
    }
}

/// Every number that is not negative rounds to some magnitude.
pub proof fn lemma_rounds_to_exists(n: int, d: int) -> (m: nat)
    requires
        n >= 0,
        d > 0,
    ensures
        rounds_to(m, n, d),
{
    let m = lemma_least_from_above(INFINITY as nat, n, d);
    m
}

/// The number denoted by the magnitude that is put together from the
/// significand `q` and the exponent step `s`. The sum `s * 2^52 + q` is a
/// magnitude also where `q` has grown to `2^53`: the carry goes into the
/// exponent field, where it belongs.
pub proof fn lemma_packed_units(q: nat, s: nat)
    requires
        s == 0 || q >= 0x10_0000_0000_0000,
        q <= 0x20_0000_0000_0000,
    ensures
        units(s * 0x10_0000_0000_0000 + q) == q * pow2(s),
{
    lemma2_to64();
    lemma2_to64_rest();
    let p = pow2(52);
    assert(p == 0x10_0000_0000_0000);
    let m = s * 0x10_0000_0000_0000 + q;
    if q < 0x10_0000_0000_0000 {
        lemma_fundamental_div_mod_converse(m as int, p as int, 0, q as int);
    } else if q < 0x20_0000_0000_0000 {
        let f = (q - 0x10_0000_0000_0000) as nat;
        lemma_fundamental_div_mod_converse(m as int, p as int, s as int + 1, f as int);
        assert((p + f) * pow2(s) == q * pow2(s));
    } else {
        lemma_fundamental_div_mod_converse(m as int, p as int, s as int + 2, 0);
        lemma_pow2_unfold(s + 1);
        assert(p * pow2(s + 1) == q * pow2(s)) by (nonlinear_arith)
            requires
                p == 0x10_0000_0000_0000,
                q == 0x20_0000_0000_0000,
                pow2(s + 1) == 2 * pow2(s),
        ;
    }
}

proof fn lemma_step_bounds(
    q0: int,
    rem: int,
    a: int,
    h: int,
    big: int,
    x: int,
    sticky: bool,
    up: bool,
    q: int,
)
    by (nonlinear_arith)
    requires
        a == 2 * h,
        h >= 1,
        0 <= rem < a,
        big > 0,
        q0 >= 0,
        !sticky ==> x == (q0 * a + rem) * big,
        sticky ==> (q0 * a + rem) * big < x < (q0 * a + rem + 1) * big,
        up == (rem > h || (rem == h && (sticky || q0 % 2 == 1))),
        q == q0 + if up {
            1int
        } else {
            0int
        },
    ensures
        (2 * q - 1) * (a * big) <= 2 * x,
        (2 * q - 1) * (a * big) == 2 * x ==> q % 2 == 0,
        2 * x <= (2 * q + 1) * (a * big),
        2 * x == (2 * q + 1) * (a * big) ==> q % 2 == 0,
        x >= q0 * (a * big),
        !up ==> 4 * q * (a * big) <= 4 * x,
{
}

proof fn lemma_cancel(l: int, r: int, a: int)
    by (nonlinear_arith)
    requires
        a > 0,
    ensures
        l * a < r * a <==> l < r,
        l * a == r * a <==> l == r,
        l * a <= r * a <==> l <= r,
{
}

/// Rounding a number that lies at `p / 2^r`, or if `sticky` between that and
/// `(p + 1) / 2^r`, counted in steps of `2^s` units: drop the last `r` bits of
/// `p` and go up if what was dropped is more than half a step, or is half a
/// step and the step below is odd.
proof fn lemma_round_step(
    q0: nat,
    rem: nat,
    r: nat,
    s: nat,
    n: int,
    d: int,
    sticky: bool,
    up: bool,
    q: nat,
)
    requires
        d > 0,
        r >= 1,
        rem < pow2(r),
        s == 0 || q0 >= 0x10_0000_0000_0000,
        q0 < 0x20_0000_0000_0000,
        !sticky ==> n * pow2(r) == (q0 * pow2(r) + rem) * (pow2(s) * d),
        sticky ==> (q0 * pow2(r) + rem) * (pow2(s) * d) < n * pow2(r) < (q0 * pow2(r) + rem + 1)
            * (pow2(s) * d),
        up == (rem > pow2((r - 1) as nat) || (rem == pow2((r - 1) as nat) && (sticky || q0 % 2
            == 1))),
        q == q0 + if up {
            1nat
        } else {
            0nat
        },
    ensures
        from_below(s * 0x10_0000_0000_0000 + q, n, d),
        from_above(s * 0x10_0000_0000_0000 + q, n, d),
{
    let a = pow2(r) as int;
    let h = pow2((r - 1) as nat) as int;
    let t = pow2(s) as int;
    let big = t * d;
    let x = n * a;
    let m = s * 0x10_0000_0000_0000 + q;
    lemma_pow2_pos(r);
    lemma_pow2_pos((r - 1) as nat);
    lemma_pow2_pos(s);
    lemma_pow2_unfold(r);
    assert(big > 0) by (nonlinear_arith)
        requires
            big == t * d,
            t > 0,
            d > 0,
    ;
    lemma_step_bounds(q0 as int, rem as int, a, h, big, x, sticky, up, q as int);
    lemma_packed_units(q, s);
    // The magnitude above.
    if q < 0x20_0000_0000_0000 {
        lemma_packed_units(q + 1, s);
        assert(m + 1 == s * 0x10_0000_0000_0000 + (q + 1));
    } else {
        lemma_packed_units(0x10_0000_0000_0001, s + 1);
        lemma_pow2_unfold(s + 1);
        assert(m + 1 == (s + 1) * 0x10_0000_0000_0000 + 0x10_0000_0000_0001);
        assert(0x10_0000_0000_0001 * pow2(s + 1) >= (q + 1) * pow2(s)) by (nonlinear_arith)
            requires
                q == 0x20_0000_0000_0000,
                pow2(s + 1) == 2 * pow2(s),
        ;
    }
    let above = units(m + 1) as int;
    let here = units(m) as int;
    assert(here == q * t);
    assert(above >= (q + 1) * t);
    assert((here + above) * d * a >= (2 * q + 1) * (a * big)) by (nonlinear_arith)
        requires
            here == q * t,
            above >= (q + 1) * t,
            big == t * d,
            d > 0,
            a > 0,
            t > 0,
    ;
    assert(above == (q + 1) * t ==> (here + above) * d * a == (2 * q + 1) * (a * big))
        by (nonlinear_arith)
        requires
            here == q * t,
            big == t * d,
    ;
    assert(2 * n * a == 2 * x) by (nonlinear_arith)
        requires
            x == n * a,
    ;
    lemma_cancel(2 * n, (here + above) * d, a);
    assert(((here + above) * d) * a == (here + above) * d * a);
    assert(m % 2 == q % 2) by {
        assert(m == q + 0x10_0000_0000_0000 * s);
        lemma_mod_multiples_vanish(0x8_0000_0000_0000 * (s as int), q as int, 2);
    }
    assert(from_above(m, n, d));
    // The magnitude below.
    if m > 0 {
        let below = units((m - 1) as nat) as int;
        if s == 0 || q > 0x10_0000_0000_0000 {
            lemma_packed_units((q - 1) as nat, s);
            assert(m - 1 == s * 0x10_0000_0000_0000 + (q - 1));
            assert(below == (q - 1) * t);
            assert((below + here) * d * a == (2 * q - 1) * (a * big)) by (nonlinear_arith)
                requires
                    here == q * t,
                    below == (q - 1) * t,
                    big == t * d,
            ;
        } else {
            lemma_packed_units(0x1f_ffff_ffff_ffff, (s - 1) as nat);
            lemma_pow2_unfold(s);
            assert(m - 1 == (s - 1) * 0x10_0000_0000_0000 + 0x1f_ffff_ffff_ffff);
            let t2 = pow2((s - 1) as nat) as int;
            assert(!up);
            assert((below + here) * d * a < 2 * q * (a * big)) by (nonlinear_arith)
                requires
                    here == q * t,
                    below == 0x1f_ffff_ffff_ffff * t2,
                    t == 2 * t2,
                    q == 0x10_0000_0000_0000,
                    big == t * d,
                    d > 0,
                    a > 0,
                    t2 > 0,
            ;
            assert(2 * q * (a * big) <= 2 * x) by (nonlinear_arith)
                requires
                    4 * q * (a * big) <= 4 * x,
            ;
            assert((below + here) * d * a < 2 * x);
        }
        lemma_cancel((below + here) * d, 2 * n, a);
        assert(((below + here) * d) * a == (below + here) * d * a);
        assert(from_below(m, n, d));
    }
}

/// A number that is exactly `q * 2^s` units rounds to the magnitude put
/// together from `q` and `s`.
proof fn lemma_round_exact(q: nat, s: nat, n: int, d: int)
    requires
        d > 0,
        s == 0 || q >= 0x10_0000_0000_0000,
        q < 0x20_0000_0000_0000,
        n == q * pow2(s) * d,
    ensures
        from_below(s * 0x10_0000_0000_0000 + q, n, d),
        from_above(s * 0x10_0000_0000_0000 + q, n, d),
{
    let m = s * 0x10_0000_0000_0000 + q;
    lemma_packed_units(q, s);
    let here = units(m) as int;
    let above = units(m + 1) as int;
    lemma_scaled_of_increases(m, m + 1, 52);
    assert(2 * n < (here + above) * d) by (nonlinear_arith)
        requires
            n == here * d,
            here < above,
            d > 0,
    ;
    if m > 0 {
        let below = units((m - 1) as nat) as int;
        lemma_scaled_of_increases((m - 1) as nat, m, 52);
        assert((below + here) * d < 2 * n) by (nonlinear_arith)
            requires
                n == here * d,
                below < here,
                d > 0,
        ;
    }
}

/// A number that would round to a magnitude at or beyond that of infinity
/// rounds to infinity.
proof fn lemma_round_overflow(m: nat, n: int, d: int)
    requires
        d > 0,
        m >= INFINITY,
        from_below(m, n, d),
    ensures
        rounds_to(INFINITY as nat, n, d),
{
    let top = INFINITY as nat;
    if m > top {
        lemma_units_ordered((top - 1) as nat, (m - 1) as nat);
        lemma_scaled_of_increases(top, m, 52);
        let a = (units((top - 1) as nat) + units(top)) as int;
        let b = (units((m - 1) as nat) + units(m)) as int;
        assert(a * d < b * d) by (nonlinear_arith)
            requires
                a < b,
                d > 0,
        ;
    }
}

proof fn lemma_rescale(p: nat, e: int, sticky: bool, n: int, d: int, r: nat, s: nat)
    requires
        d > 0,
        r == s - e,
        stands_for(p, e, sticky, n, d),
    ensures
        !sticky ==> n * pow2(r) == p * (pow2(s) * d),
        sticky ==> p * (pow2(s) * d) < n * pow2(r) < (p + 1) * (pow2(s) * d),
{
    lemma_pow2_pos(r);
    lemma_pow2_pos(s);
    let a = pow2(r) as int;
    let t = pow2(s) as int;
    if e >= 0 {
        let u = pow2(e as nat) as int;
        lemma_pow2_adds(e as nat, r);
        assert(t == u * a);
        lemma2_to64();
    lemma2_to64_rest();
        if sticky {
            assert(p * (t * d) < n * a < (p + 1) * (t * d)) by (nonlinear_arith)
                requires
                    p * u * d < n * 1 < (p + 1) * u * d,
                    t == u * a,
                    a > 0,
            ;
        } else {
            assert(n * a == p * (t * d)) by (nonlinear_arith)
                requires
                    n * 1 == p * u * d,
                    t == u * a,
            ;
        }
    } else {
        let w = pow2((-e) as nat) as int;
        lemma_pow2_adds((-e) as nat, s);
        assert(a == w * t);
        if sticky {
            assert(p * (t * d) < n * a < (p + 1) * (t * d)) by (nonlinear_arith)
                requires
                    p * 1 * d < n * w < (p + 1) * 1 * d,
                    a == w * t,
                    t > 0,
            ;
        } else {
            assert(n * a == p * (t * d)) by (nonlinear_arith)
                requires
                    n * w == p * 1 * d,
                    a == w * t,
            ;
        }
    }
}

proof fn lemma_quotient_bounds(p: nat, l: nat, r: nat, grow: bool)
    requires
        p < pow2(l),
        l <= 53 + r,
        grow ==> l == 53 + r && pow2((l - 1) as nat) <= p,
    ensures
        p / pow2(r) < 0x20_0000_0000_0000,
        grow ==> p / pow2(r) >= 0x10_0000_0000_0000,
        p == (p / pow2(r)) * pow2(r) + p % pow2(r),
        p % pow2(r) < pow2(r),
{
    lemma2_to64();
    lemma2_to64_rest();
    lemma_pow2_pos(r);
    let a = pow2(r) as int;
    lemma_fundamental_div_mod(p as int, a);
    lemma_mod_bound(p as int, a);
    let q = p as int / a;
    let rest = p as int % a;
    lemma_pow2_adds(53, r);
    if l < 53 + r {
        lemma_pow2_strictly_increases(l, 53 + r);
    }
    assert(p < 0x20_0000_0000_0000 * a);
    assert(q < 0x20_0000_0000_0000) by (nonlinear_arith)
        requires
            p < 0x20_0000_0000_0000 * a,
            p == a * q + rest,
            0 <= rest < a,
            a > 0,
    ;
    if grow {
        lemma_pow2_adds(52, r);
        assert(q >= 0x10_0000_0000_0000) by (nonlinear_arith)
            requires
                p >= 0x10_0000_0000_0000 * a,
                p == a * q + rest,
                0 <= rest < a,
                a > 0,
        ;
    }
    assert(a * q == q * a) by (nonlinear_arith);
}

/// Zero rounds to zero.
proof fn lemma_zero_rounds(e: int, n: int, d: int)
    requires
        d > 0,
        stands_for(0, e, false, n, d),
    ensures
        rounds_to(0, n, d),
{
    lemma_scaled_of_zero(23);
    lemma_scaled_of_increases(0, 1, 52);
    if e < 0 {
        lemma_pow2_pos((-e) as nat);
        let w = pow2((-e) as nat) as int;
        assert(0 * 1 * d == 0) by (nonlinear_arith);
        assert(n == 0) by (nonlinear_arith)
            requires
                n * w == 0,
                w > 0,
        ;
    } else {
        assert(0 * pow2(e as nat) * d == 0) by (nonlinear_arith);
    }
    assert((units(0) + units(1)) * d > 0) by (nonlinear_arith)
        requires
            units(0) + units(1) > 0,
            d > 0,
    ;
}

/// A number of few bits is held as it is: with `k` zeros behind it, it is
/// the significand.
proof fn lemma_short_rounds(p: nat, l: nat, e: int, s: nat, k: nat, n: int, d: int)
    requires
        d > 0,
        p > 0,
        pow2((l - 1) as nat) <= p < pow2(l),
        l >= 1,
        l + k <= 53,
        s > 0 ==> l + k == 53,
        e == s + k,
        stands_for(p, e, false, n, d),
    ensures
        p * pow2(k) < 0x20_0000_0000_0000,
        from_below(s * 0x10_0000_0000_0000 + p * pow2(k), n, d),
        from_above(s * 0x10_0000_0000_0000 + p * pow2(k), n, d),
{
    lemma2_to64();
    lemma2_to64_rest();
    let a = pow2(k) as int;
    lemma_pow2_pos(k);
    lemma_pow2_adds(l, k);
    if l + k < 53 {
        lemma_pow2_strictly_increases(l + k, 53);
    }
    assert(p * a < 0x20_0000_0000_0000) by (nonlinear_arith)
        requires
            p < pow2(l),
            pow2(l) * a <= 0x20_0000_0000_0000,
            a > 0,
    ;
    if s > 0 {
        lemma_pow2_adds((l - 1) as nat, k);
        assert(p * a >= 0x10_0000_0000_0000) by (nonlinear_arith)
            requires
                p >= pow2((l - 1) as nat),
                pow2((l - 1) as nat) * a == 0x10_0000_0000_0000,
                a > 0,
        ;
    }
    let q = p * a;
    lemma_pow2_adds(k, s);
    let t = pow2(s) as int;
    let u = pow2(e as nat) as int;
    assert(n == q * t * d) by (nonlinear_arith)
        requires
            n * 1 == p * u * d,
            u == a * t,
            q == p * a,
    ;
    lemma_round_exact(q as nat, s, n, d);
}

/// A number that lies far below the smallest positive value rounds to zero.
proof fn lemma_tiny_rounds(p: nat, e: int, sticky: bool, r: nat, n: int, d: int)
    requires
        d > 0,
        p < 0x4000_0000_0000_0000_0000_0000_0000_0000,
        r >= 127,
        r == -e,
        stands_for(p, e, sticky, n, d),
    ensures
        from_below(0, n, d),
        from_above(0, n, d),
{
    lemma_rescale(p, e, sticky, n, d, r, 0);
    lemma2_to64();
    lemma2_to64_rest();
    lemma2_to64_rest();
    lemma_pow2_adds(64, 62);
    assert(pow2(126) == 0x4000_0000_0000_0000_0000_0000_0000_0000);
    if r - 1 > 126 {
        lemma_pow2_strictly_increases(126, (r - 1) as nat);
    }
    lemma_pow2_unfold(r);
    assert(0 * pow2(r) + p == p) by (nonlinear_arith);
    lemma_round_step(0, p, r, 0, n, d, sticky, false, 0);
}

/// A number of many bits loses its last `r` bits and is rounded by them.
proof fn lemma_long_rounds(
    p: nat,
    l: nat,
    e: int,
    sticky: bool,
    r: nat,
    s: nat,
    up: bool,
    n: int,
    d: int,
)
    requires
        d > 0,
        p < pow2(l),
        r >= 1,
        l <= 53 + r,
        s > 0 ==> l == 53 + r && pow2((l - 1) as nat) <= p,
        r == s - e,
        stands_for(p, e, sticky, n, d),
        up == (p % pow2(r) > pow2((r - 1) as nat) || (p % pow2(r) == pow2((r - 1) as nat) && (
        sticky || (p / pow2(r)) % 2 == 1))),
    ensures
        p / pow2(r) < 0x20_0000_0000_0000,
        from_below(
            s * 0x10_0000_0000_0000 + p / pow2(r) + if up {
                1nat
            } else {
                0nat
            },
            n,
            d,
        ),
        from_above(
            s * 0x10_0000_0000_0000 + p / pow2(r) + if up {
                1nat
            } else {
                0nat
            },
            n,
            d,
        ),
{
    lemma_rescale(p, e, sticky, n, d, r, s);
    lemma_quotient_bounds(p, l, r, s > 0);
    let q0 = p / pow2(r);
    let q: nat = q0 + if up {
        1nat
    } else {
        0nat
    };
    lemma_round_step(q0, p % pow2(r), r, s, n, d, sticky, up, q);
}

/// Rounds `p * 2^e` units to binary64, or if `sticky` a number between that
/// and `(p + 1) * 2^e` units. The result is the magnitude that the number
/// `n / d` rounds to.
pub(crate) fn round_pack(p: u128, e: i32, sticky: bool, Ghost(n): Ghost<int>, Ghost(d): Ghost<int>)
    -> (m: u64)
    requires
        p < 0x4000_0000_0000_0000_0000_0000_0000_0000,
        -3200 <= e <= 3200,
        d > 0,
        sticky ==> p >= 0x20_0000_0000_0000,
        stands_for(p as nat, e as int, sticky, n, d),
    ensures
        rounds_to(m as nat, n, d),
{
    if p == 0 {
        proof {
            lemma_zero_rounds(e as int, n, d);
        }
        return 0;
    }
    let l: i32 = bit_length(p) as i32;
    let s: i32 = if l + e - 53 > 0 {
        l + e - 53
    } else {
        0
    };
    let r: i32 = s - e;
    let q: u128;
    if r <= 0 {
        let k: u32 = (-r) as u32;
        proof {
            // A number with something behind it is long: it is not here.
            lemma2_to64();
    lemma2_to64_rest();
            if l <= 53 {
                crate::ieee::lemma_pow2_increases(l as nat, 53);
            }
            lemma_short_rounds(p as nat, l as nat, e as int, s as nat, k as nat, n, d);
        }
        q = p * power_of_two(k);
    } else if r >= 127 {
        proof {
            lemma_tiny_rounds(p as nat, e as int, sticky, r as nat, n, d);
        }
        q = 0;
    } else {
        let a = power_of_two(r as u32);
        proof {
            lemma_pow2_pos(r as nat);
            lemma_pow2_unfold(r as nat);
        }
        let q0 = p / a;
        let rem = p % a;
        let half = a / 2;
        let up = rem > half || (rem == half && (sticky || q0 % 2 == 1));
        proof {
            if l > 53 + r {
                lemma_pow2_strictly_increases(53, (l - 1 - r) as nat);
            }
            lemma_long_rounds(p as nat, l as nat, e as int, sticky, r as nat, s as nat, up, n, d);
        }
        q = if up {
            q0 + 1
        } else {
            q0
        };
    }
    let m: u128 = (s as u128) * 0x10_0000_0000_0000 + q;
    if m >= 0x7ff0_0000_0000_0000 {
        proof {
            lemma_round_overflow(m as nat, n, d);
        }
        0x7ff0_0000_0000_0000
    } else {
        m as u64
    }
}

} // verus!
