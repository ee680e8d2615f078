use character_controller::remap::remap;
use character_controller::single::Single;

fn single(x: f32) -> Single {
    Single::from_bits(x.to_bits())
}

fn value(s: Single) -> f32 {
    f32::from_bits(s.to_bits())
}

fn reference(src: f32, (src_min, src_max): (f32, f32), (dest_min, dest_max): (f32, f32)) -> f32 {
    if src <= src_min {
        return dest_min;
    } else if src >= src_max {
        return dest_max;
    }
    let off = src - src_min;
    let off_pct = off / (src_max - src_min);
    let dest_range = dest_max - dest_min;
    dest_min + dest_range * off_pct
}

#[test]
fn remap_of_plain_numbers() {
    assert_eq!(remap(0.0f64, (-1.0, 1.0), (-180.0, 180.0)), 0.0);
    assert_eq!(remap(0.5f64, (-1.0, 1.0), (-180.0, 180.0)), 90.0);
    assert_eq!(remap(-3.0f64, (-1.0, 1.0), (-180.0, 180.0)), -180.0);
    assert_eq!(remap(1.0f64, (-1.0, 1.0), (-180.0, 180.0)), 180.0);
    assert_eq!(remap(7, (0, 10), (100, 200)), 100);
    assert_eq!(remap(10, (0, 10), (100, 200)), 200);
    assert_eq!(remap(5, (0, 5), (0, 50)), 50);
}

#[test]
fn remap_of_binary32_values() {
    let ranges = [((-1.0f32, 1.0f32), (-3.1415927f32, 3.1415927f32)), ((0.0, 10.0), (5.0, -5.0)), ((2.0, 2.0), (1.0, 9.0))];
    for (from, to) in ranges {
        for src in [-2.0f32, -1.0, -0.3, 0.0, 0.1, 0.75, 1.0, 2.0, 3.3, 9.99, 10.0, 11.0, f32::NAN] {
            let got = remap(
                single(src),
                (single(from.0), single(from.1)),
                (single(to.0), single(to.1)),
            );
            let want = reference(src, from, to);
            if want.is_nan() {
                assert!(got.is_nan());
            } else {
                assert_eq!(value(got), want, "{src} {from:?} {to:?}");
            }
        }
    }
}

#[test]
fn operators_on_binary32_values() {
    let (a, b) = (single(1.5), single(-0.25));
    assert_eq!(value(a + b), 1.25);
    assert_eq!(value(a - b), 1.75);
    assert_eq!(value(a * b), -0.375);
    assert_eq!(value(a / b), -6.0);
    assert!(a > b && b < a && a >= a && !(a < a));
}
