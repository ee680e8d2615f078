use character_controller::double::Double;
use character_controller::single::{Single, EPSILON, ONE, ZERO};

fn samples() -> Vec<f32> {
    vec![
        0.0,
        -0.0,
        1.0,
        -1.0,
        f32::EPSILON,
        -f32::EPSILON,
        f32::MIN_POSITIVE,
        f32::from_bits(1),
        -f32::from_bits(1),
        f32::from_bits(0x007f_ffff),
        0.1,
        0.5,
        0.9,
        3.1415925,
        3.1415927,
        5.0,
        100.0,
        -100.0,
        f32::MAX,
        f32::MIN,
        f32::INFINITY,
        f32::NEG_INFINITY,
        f32::NAN,
        -f32::NAN,
        f32::from_bits(0x7f80_0001),
        f32::from_bits(0xffff_ffff),
    ]
}

fn single(x: f32) -> Single {
    Single::from_bits(x.to_bits())
}

#[test]
fn ieee_constants_are_the_values_they_name() {
    assert_eq!(ZERO, 0.0f32.to_bits());
    assert_eq!(ONE, 1.0f32.to_bits());
    assert_eq!(EPSILON, f32::EPSILON.to_bits());
}

#[test]
fn bits_round_trip() {
    for x in samples() {
        assert_eq!(single(x).to_bits(), x.to_bits());
    }
    assert_eq!(Double::from_bits(0.6f64.to_bits()).to_bits(), 0x3fe3_3333_3333_3333);
}

#[test]
fn classification_matches_the_hardware() {
    for x in samples() {
        let s = single(x);
        assert_eq!(s.is_nan(), x.is_nan(), "{x}");
        assert_eq!(s.is_finite(), x.is_finite(), "{x}");
        assert_eq!(s.is_zero(), x == 0.0, "{x}");
        assert_eq!(s.is_sign_negative(), x.is_sign_negative(), "{x}");
    }
}

#[test]
fn comparisons_match_the_hardware() {
    for a in samples() {
        for b in samples() {
            let (x, y) = (single(a), single(b));
            assert_eq!(x.lt(y), a < b, "{a} < {b}");
            assert_eq!(x.le(y), a <= b, "{a} <= {b}");
            assert_eq!(x.gt(y), a > b, "{a} > {b}");
            assert_eq!(x.ge(y), a >= b, "{a} >= {b}");
            assert_eq!(x.eq_value(y), a == b, "{a} == {b}");
            assert_eq!(x == y, a == b, "{a} == {b}");
            assert_eq!(x < y, a < b, "{a} < {b}");
            assert_eq!(x <= y, a <= b, "{a} <= {b}");
            assert_eq!(x.partial_cmp(&y), a.partial_cmp(&b), "{a} cmp {b}");
        }
    }
}

#[test]
fn negation_flips_the_sign_bit_only() {
    for x in samples() {
        assert_eq!(single(x).neg().to_bits(), (-x).to_bits(), "{x}");
    }
    assert_eq!(single(0.0).neg().to_bits(), 0x8000_0000);
    assert_eq!(single(1.5).neg().to_bits(), (-1.5f32).to_bits());
}

#[test]
fn max_and_min_ignore_nan() {
    for a in samples() {
        for b in samples() {
            let hi = single(a).max(single(b));
            let lo = single(a).min(single(b));
            let (want_hi, want_lo) = (a.max(b), a.min(b));
            if want_hi.is_nan() {
                assert!(hi.is_nan());
                assert!(lo.is_nan());
            } else {
                // Equal values of different sign are the two zeros, and
                // either may come out.
                assert!(f32::from_bits(hi.to_bits()) == want_hi, "max({a}, {b})");
                assert!(f32::from_bits(lo.to_bits()) == want_lo, "min({a}, {b})");
            }
        }
    }
    assert_eq!(single(f32::NAN).max(single(2.0)).to_bits(), 2.0f32.to_bits());
    assert_eq!(single(2.0).max(single(f32::NAN)).to_bits(), 2.0f32.to_bits());
    assert_eq!(single(3.0).min(single(2.0)).to_bits(), 2.0f32.to_bits());
    assert_eq!(single(3.0).max(single(2.0)).to_bits(), 3.0f32.to_bits());
}

#[test]
fn clamp_is_max_then_min() {
    let lo = single(5.0);
    let hi = single(100.0);
    for x in samples() {
        let want = x.max(5.0).min(100.0);
        assert_eq!(single(x).clamp_to(lo, hi).to_bits(), want.to_bits(), "{x}");
    }
    assert_eq!(single(7.25).clamp_to(lo, hi).to_bits(), 7.25f32.to_bits());
    assert_eq!(single(f32::NAN).clamp_to(lo, hi).to_bits(), 5.0f32.to_bits());
    assert_eq!(single(1e9).clamp_to(lo, hi).to_bits(), 100.0f32.to_bits());
}

#[test]
fn double_comparisons_match_the_hardware() {
    let values = [
        0.0f64,
        -0.0,
        0.5,
        0.6,
        -100.0,
        1e300,
        -1e300,
        f64::MIN_POSITIVE,
        f64::from_bits(1),
        f64::INFINITY,
        f64::NEG_INFINITY,
        f64::NAN,
        -f64::NAN,
    ];
    for a in values {
        for b in values {
            let (x, y) = (Double::from_bits(a.to_bits()), Double::from_bits(b.to_bits()));
            assert_eq!(x.lt(y), a < b, "{a} < {b}");
            assert_eq!(x.le(y), a <= b, "{a} <= {b}");
            assert_eq!(x.gt(y), a > b, "{a} > {b}");
            assert_eq!(x.ge(y), a >= b, "{a} >= {b}");
            assert_eq!(x.eq_value(y), a == b, "{a} == {b}");
            assert_eq!(x.partial_cmp(&y), a.partial_cmp(&b), "{a} cmp {b}");
            assert_eq!(x.is_nan(), a.is_nan());
            assert_eq!(x.is_finite(), a.is_finite());
        }
    }
}
