use bevy::math::{Vec2 as EngineVec2, Vec3 as EngineVec3};
use character_controller::single::Single;
use character_controller::vector::{Vec2, Vec3};

fn single(x: f32) -> Single {
    Single::from_bits(x.to_bits())
}

fn bits(s: Single) -> u32 {
    if s.is_nan() {
        0x7fc0_0000
    } else {
        s.to_bits()
    }
}

fn same(x: f32) -> u32 {
    if x.is_nan() {
        0x7fc0_0000
    } else {
        x.to_bits()
    }
}

fn values() -> Vec<f32> {
    let mut out = vec![0.0f32, -0.0, 1.0, -1.0, 0.1, 15.0, 1e-30, 3e18, -16.88178, -9.89964];
    let mut seed = 0x0f0f_1234_5678_9abcu64;
    for _ in 0..40 {
        seed ^= seed << 13;
        seed ^= seed >> 7;
        seed ^= seed << 17;
        out.push(((seed >> 40) as f32 - 8_000_000.0) * 1e-5);
    }
    out
}

#[test]
fn plane_vectors_match_the_engine() {
    let xs = values();
    for (i, &x) in xs.iter().enumerate() {
        let y = xs[(i * 7 + 3) % xs.len()];
        let k = xs[(i * 5 + 1) % xs.len()];
        let (v, e) = (Vec2::new(single(x), single(y)), EngineVec2::new(x, y));
        let (w, f) = (Vec2::new(single(k), single(x)), EngineVec2::new(k, x));
        assert_eq!(bits(v.length()), same(e.length()), "length of {e}");
        let sum = v.add(w);
        assert_eq!((bits(sum.x), bits(sum.y)), (same((e + f).x), same((e + f).y)));
        let scaled = v.scale(single(k));
        assert_eq!((bits(scaled.x), bits(scaled.y)), (same((e * k).x), same((e * k).y)));
        if e.length() > 0.0 {
            let unit = v.normalize();
            let want = e * e.length_recip();
            assert_eq!((bits(unit.x), bits(unit.y)), (same(want.x), same(want.y)), "{e}");
        }
    }
}

#[test]
fn space_vectors_match_the_engine() {
    let xs = values();
    for (i, &x) in xs.iter().enumerate() {
        let y = xs[(i * 7 + 3) % xs.len()];
        let z = xs[(i * 11 + 5) % xs.len()];
        let k = xs[(i * 5 + 1) % xs.len()];
        let (v, e) = (Vec3::new(single(x), single(y), single(z)), EngineVec3::new(x, y, z));
        let (w, f) = (Vec3::new(single(z), single(k), single(x)), EngineVec3::new(z, k, x));
        let triple = |v: Vec3| (bits(v.x), bits(v.y), bits(v.z));
        let engine = |e: EngineVec3| (same(e.x), same(e.y), same(e.z));
        assert_eq!(bits(v.length()), same(e.length()), "length of {e}");
        assert_eq!(triple(v.add(w)), engine(e + f));
        assert_eq!(triple(v.sub(w)), engine(e - f));
        assert_eq!(triple(v.scale(single(k))), engine(e * k));
        assert_eq!(triple(v.cross(w)), engine(e.cross(f)));
        assert_eq!(bits(v.sub(w).length()), same(e.distance(f)));
        if e.length() > 0.0 {
            assert_eq!(triple(v.normalize()), engine(e * e.length_recip()), "{e}");
        }
    }
}
