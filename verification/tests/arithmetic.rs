use character_controller::double::Double;
use character_controller::single::Single;

fn single(x: f32) -> Single {
    Single::from_bits(x.to_bits())
}

/// A sequence of bit patterns that visits every class of value: it is made
/// by a fixed scrambling of a counter, so every run sees the same values.
struct Patterns(u64);

impl Patterns {
    fn next(&mut self) -> u32 {
        self.0 ^= self.0 << 13;
        self.0 ^= self.0 >> 7;
        self.0 ^= self.0 << 17;
        (self.0 >> 16) as u32
    }

    /// A value whose exponent is near that of one, so that sums and
    /// differences of two of them do not lose one of the two.
    fn near_one(&mut self) -> f32 {
        let bits = self.next();
        let exponent = 120 + (bits >> 24) % 16;
        f32::from_bits((bits & 0x807f_ffff) | (exponent << 23))
    }

    /// A value that is zero, subnormal or just normal.
    fn tiny(&mut self) -> f32 {
        let bits = self.next();
        f32::from_bits(bits & 0x81ff_ffff)
    }
}

fn edge_values() -> Vec<f32> {
    vec![
        0.0,
        -0.0,
        1.0,
        -1.0,
        2.0,
        0.5,
        3.0,
        0.1,
        0.4,
        0.9,
        15.0,
        50.0,
        1.0 + f32::EPSILON,
        1.0 - f32::EPSILON / 2.0,
        16777216.0,
        16777215.0,
        f32::MIN_POSITIVE,
        f32::MIN_POSITIVE / 2.0,
        f32::from_bits(1),
        f32::from_bits(2),
        f32::from_bits(3),
        f32::from_bits(0x007f_ffff),
        f32::from_bits(0x0080_0001),
        f32::MAX,
        f32::MAX / 2.0,
        f32::from_bits(0x7f7f_fffe),
        1e-20,
        1e20,
        1.8446744e19,
        5.421011e-20,
        f32::INFINITY,
        f32::NEG_INFINITY,
        f32::NAN,
    ]
}

fn same(got: Single, want: f32, what: &str) {
    if want.is_nan() {
        assert!(got.is_nan(), "{what}: got {:#x}, want NaN", got.to_bits());
    } else {
        assert_eq!(got.to_bits(), want.to_bits(), "{what}: want {want:e}");
    }
}

fn check_pair(a: f32, b: f32) {
    same(single(a).mul(single(b)), a * b, &format!("{a:e} * {b:e}"));
    same(single(a).add(single(b)), a + b, &format!("{a:e} + {b:e}"));
    same(single(a).sub(single(b)), a - b, &format!("{a:e} - {b:e}"));
    same(single(a).div(single(b)), a / b, &format!("{a:e} / {b:e}"));
    same(single(a).sqrt(), a.sqrt(), &format!("sqrt {a:e}"));
}

#[test]
fn edge_values_match_the_hardware() {
    for a in edge_values() {
        for b in edge_values() {
            check_pair(a, b);
            check_pair(-a, b);
        }
    }
}

#[test]
fn arbitrary_patterns_match_the_hardware() {
    let mut patterns = Patterns(0x9e37_79b9_7f4a_7c15);
    for _ in 0..200_000 {
        let a = f32::from_bits(patterns.next());
        let b = f32::from_bits(patterns.next());
        check_pair(a, b);
        check_pair(patterns.near_one(), patterns.near_one());
        check_pair(patterns.tiny(), patterns.near_one());
        check_pair(patterns.tiny(), a);
        check_pair(patterns.tiny(), patterns.tiny());
        // Neighbours, whose difference cancels nearly all bits.
        let c = patterns.near_one();
        check_pair(c, -f32::from_bits(c.to_bits() + 1 + patterns.next() % 64));
    }
}

#[test]
fn sums_that_cancel_are_positive_zero() {
    for a in edge_values() {
        if a.is_finite() {
            assert_eq!(single(a).sub(single(a)).to_bits(), 0, "{a:e}");
            assert_eq!(single(a).add(single(-a)).to_bits(), 0, "{a:e}");
        }
    }
    assert_eq!(single(-0.0).add(single(-0.0)).to_bits(), 0x8000_0000);
    assert_eq!(single(-0.0).add(single(0.0)).to_bits(), 0);
    assert_eq!(single(0.0).sub(single(0.0)).to_bits(), 0);
    assert_eq!(single(-0.0).sub(single(0.0)).to_bits(), 0x8000_0000);
}

#[test]
fn a_small_term_still_counts_for_rounding() {
    // One and a bit more than half of the last place of one: the bit decides.
    let half_place = f32::EPSILON / 2.0;
    let a_bit = f32::from_bits(1);
    assert_eq!(single(1.0).add(single(half_place)).to_bits(), 1.0f32.to_bits());
    assert_eq!(
        single(1.0 + f32::EPSILON).add(single(half_place)).to_bits(),
        (1.0 + 2.0 * f32::EPSILON).to_bits()
    );
    let just_over = single(half_place).add(single(a_bit));
    assert_eq!(just_over.to_bits(), (half_place + a_bit).to_bits());
    assert_eq!(single(1.0).add(single(half_place * 1.0000001)).to_bits(), (1.0f32 + f32::EPSILON).to_bits());
    assert_eq!(single(1e30).add(single(1e-30)).to_bits(), 1e30f32.to_bits());
    assert_eq!(single(1e30).sub(single(1e-30)).to_bits(), 1e30f32.to_bits());
    assert_eq!(single(f32::MAX).add(single(f32::MAX)).to_bits(), f32::INFINITY.to_bits());
}

#[test]
fn roots_of_squares_and_their_neighbours() {
    for k in 1u32..4096 {
        let x = k as f32;
        let square = x * x;
        assert_eq!(single(square).sqrt().to_bits(), x.to_bits());
        for bits in [square.to_bits() - 1, square.to_bits() + 1] {
            let y = f32::from_bits(bits);
            assert_eq!(single(y).sqrt().to_bits(), y.sqrt().to_bits(), "{y:e}");
        }
    }
    assert_eq!(single(2.0).sqrt().to_bits(), 0x3fb5_04f3);
    assert_eq!(single(-0.0).sqrt().to_bits(), 0x8000_0000);
    assert!(single(-1.0).sqrt().is_nan());
    assert_eq!(single(f32::INFINITY).sqrt().to_bits(), f32::INFINITY.to_bits());
    assert_eq!(single(f32::from_bits(1)).sqrt().to_bits(), f32::from_bits(1).sqrt().to_bits());
}

#[test]
fn quotients_by_powers_of_two_are_exact() {
    assert_eq!(single(150.0).div(single(15.0)).to_bits(), 10.0f32.to_bits());
    assert_eq!(single(1.0).div(single(3.0)).to_bits(), (1.0f32 / 3.0).to_bits());
    assert_eq!(single(1.0).div(single(0.0)).to_bits(), f32::INFINITY.to_bits());
    assert_eq!(single(-1.0).div(single(0.0)).to_bits(), f32::NEG_INFINITY.to_bits());
    assert!(single(0.0).div(single(0.0)).is_nan());
    assert_eq!(single(0.0).div(single(-4.0)).to_bits(), 0x8000_0000);
    assert_eq!(single(7.0).div(single(f32::INFINITY)).to_bits(), 0);
}

fn double(x: f64) -> Double {
    Double::from_bits(x.to_bits())
}

fn same_double(got: Double, want: f64, what: &str) {
    if want.is_nan() {
        assert!(got.is_nan(), "{what}: got {:#x}, want NaN", got.to_bits());
    } else {
        assert_eq!(got.to_bits(), want.to_bits(), "{what}: want {want:e}");
    }
}

fn check_doubles(a: f64, b: f64) {
    same_double(double(a).add(double(b)), a + b, &format!("{a:e} + {b:e}"));
    same_double(double(a).sub(double(b)), a - b, &format!("{a:e} - {b:e}"));
    same_double(double(a).mul(double(b)), a * b, &format!("{a:e} * {b:e}"));
    same(double(a).to_single(), a as f32, &format!("{a:e} to single"));
}

#[test]
fn clock_arithmetic_matches_the_hardware() {
    let edges = [
        0.0f64,
        -0.0,
        1.0,
        3.0,
        0.5,
        0.6,
        -100.0,
        1e-320,
        5e-324,
        f64::MIN_POSITIVE,
        f64::MAX,
        1e300,
        1e-300,
        3.4028234663852886e38,
        3.4028235677973366e38,
        3.4028235e38,
        1.401298464324817e-45,
        7.006492321624085e-46,
        7.006492321624087e-46,
        1.0000000596046448,
        1.0000000596046447,
        1.0000001788139343,
        f64::INFINITY,
        f64::NEG_INFINITY,
        f64::NAN,
    ];
    for a in edges {
        for b in edges {
            check_doubles(a, b);
            check_doubles(-a, b);
        }
    }
    let mut patterns = Patterns(0x2545_f491_4f6c_dd1d);
    for _ in 0..100_000 {
        let a = f64::from_bits(((patterns.next() as u64) << 32) | patterns.next() as u64);
        let b = f64::from_bits(((patterns.next() as u64) << 32) | patterns.next() as u64);
        check_doubles(a, b);
        // Times of a clock: seconds, and a little later.
        let now = (patterns.next() % 1_000_000) as f64 / 64.0 + (patterns.next() as f64) * 1e-12;
        let then = now - (patterns.next() % 4096) as f64 / 1024.0;
        check_doubles(now, then);
        check_doubles(3.0, now - then);
        // Values about the range of binary32.
        let c = patterns.near_one() as f64 * (1.0 + (patterns.next() as f64) * 1e-17);
        check_doubles(c, patterns.tiny() as f64 * 0.75);
    }
}

#[test]
fn whole_numbers_round_to_nearest() {
    let mut patterns = Patterns(0x0123_4567_89ab_cdef);
    let mut check = |n: u128| {
        assert_eq!(Single::from_u128(n).to_bits(), (n as f32).to_bits(), "{n}");
    };
    for n in [0u128, 1, 2, 3, 16_777_215, 16_777_216, 16_777_217, 16_777_218, 16_777_219, 1_000_000, u64::MAX as u128, u128::MAX, u128::MAX - 1, 1 << 126, (1 << 126) - 1, (1 << 126) + 1, 0xffff_ff7f_ffff_ffff_ffff_ffff_ffff_ffff, 0xffff_ff80_0000_0000_0000_0000_0000_0000, 0xffff_ff00_0000_0000_0000_0000_0000_0000] {
        check(n);
    }
    for _ in 0..100_000 {
        let wide = ((patterns.next() as u128) << 96)
            | ((patterns.next() as u128) << 64)
            | ((patterns.next() as u128) << 32)
            | patterns.next() as u128;
        check(wide >> (patterns.next() % 128));
    }
}
