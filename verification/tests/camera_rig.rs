use character_controller::camera::{
    clamp_distance, clamp_pitch, total_motion, total_wheel, CameraOrientation, Entity,
    MouseInputState, DEFAULT_DISTANCE, DEFAULT_PITCH, DEFAULT_Y_OFFSET, DISTANCE_MAX,
    DISTANCE_MIN, PITCH_MAX, PITCH_MIN,
};
use character_controller::config::{Config, LOOK_DIVISOR, RADIANS_PER_DEGREE};
use character_controller::keys::KeyCode;
use character_controller::single::Single;
use character_controller::vector::{Angle, Vec2};

fn config(sens: f32, zoom_sens: f32) -> Config {
    Config {
        sens: single(sens),
        zoom_sens: single(zoom_sens),
        movement: [KeyCode::W, KeyCode::A, KeyCode::S, KeyCode::D],
        specials: [KeyCode::E, KeyCode::F],
        jump: KeyCode::Space,
        dash: KeyCode::LShift,
        net_mode: None,
    }
}

fn motion(dx: f32, dy: f32) -> Vec2 {
    Vec2::new(single(dx), single(dy))
}

fn single(x: f32) -> Single {
    Single::from_bits(x.to_bits())
}

fn value(s: Single) -> f32 {
    f32::from_bits(s.to_bits())
}

fn inputs() -> Vec<f32> {
    vec![
        0.0,
        -0.0,
        f32::EPSILON,
        f32::EPSILON / 2.0,
        1.0,
        3.0,
        3.1415925,
        3.1415927,
        3.2,
        4.9999995,
        5.0,
        50.0,
        100.0,
        100.00001,
        -7.0,
        1e30,
        -1e30,
        f32::INFINITY,
        f32::NEG_INFINITY,
        f32::NAN,
        -f32::NAN,
    ]
}

#[test]
fn bounds_are_the_values_they_name() {
    assert_eq!(PITCH_MIN, (0f32.to_radians() + f32::EPSILON).to_bits());
    assert_eq!(PITCH_MAX, (180f32.to_radians() - f32::EPSILON).to_bits());
    assert_eq!(DISTANCE_MIN, 5f32.to_bits());
    assert_eq!(DISTANCE_MAX, 100f32.to_bits());
    assert_eq!(DEFAULT_PITCH, 60f32.to_radians().to_bits());
    assert_eq!(DEFAULT_DISTANCE, 50f32.to_bits());
    assert_eq!(DEFAULT_Y_OFFSET, 5f32.to_bits());
}

#[test]
fn pitch_is_in_range_after_clamping() {
    let lo = f32::EPSILON;
    let hi = std::f32::consts::PI - f32::EPSILON;
    for x in inputs() {
        let got = value(clamp_pitch(single(x)));
        assert!(lo <= got && got <= hi, "{x} -> {got}");
        let want = x.max(0f32.to_radians() + f32::EPSILON).min(180f32.to_radians() - f32::EPSILON);
        assert_eq!(got.to_bits(), want.to_bits(), "{x}");
    }
    assert_eq!(value(clamp_pitch(single(1.25))), 1.25);
    assert_eq!(value(clamp_pitch(single(-3.0))), f32::EPSILON);
    assert_eq!(clamp_pitch(single(10.0)).to_bits(), 0x4049_0fda);
}

#[test]
fn distance_is_in_range_after_clamping() {
    for x in inputs() {
        let got = value(clamp_distance(single(x)));
        assert!(5.0 <= got && got <= 100.0, "{x} -> {got}");
        assert_eq!(got.to_bits(), x.max(5.).min(100.).to_bits(), "{x}");
    }
    assert_eq!(value(clamp_distance(single(42.5))), 42.5);
    assert_eq!(value(clamp_distance(single(4.0))), 5.0);
    assert_eq!(value(clamp_distance(single(250.0))), 100.0);
}

#[test]
fn clamping_twice_changes_nothing() {
    for x in inputs() {
        let once = clamp_pitch(single(x));
        assert_eq!(clamp_pitch(once).to_bits(), once.to_bits());
        let once = clamp_distance(single(x));
        assert_eq!(clamp_distance(once).to_bits(), once.to_bits());
    }
}

#[test]
fn default_rig() {
    let rig = CameraOrientation::default();
    assert_eq!(value(rig.yaw), 0.0);
    assert_eq!(value(rig.pitch), 60f32.to_radians());
    assert_eq!(value(rig.roll), 0.0);
    assert_eq!(value(rig.distance), 50.0);
    assert_eq!(value(rig.y_offset), 5.0);
    assert_eq!(rig.attached_entity, None);
    assert!(!MouseInputState::default().no_mouse_inputs);
}

#[test]
fn look_sensitivity_is_a_tenth_of_the_degrees() {
    assert_eq!(RADIANS_PER_DEGREE, 1f32.to_radians().to_bits());
    assert_eq!(LOOK_DIVISOR, 10f32.to_bits());
    for sens in [0.0f32, 1.0, 2.2, 5.729578, 90.0, -3.0] {
        let got = config(sens, 1.0).look_sens();
        assert_eq!(got.to_bits(), (sens.to_radians() / 10.0).to_bits(), "{sens}");
    }
}

#[test]
fn mouse_delta_turns_yaw_and_leaves_pitch() {
    // Pointer motion of (100, 0) at a look sensitivity of 0.01.
    let c = config(5.729578, 2.2);
    assert_eq!(value(c.look_sens()), 0.01);
    let mut rig = CameraOrientation::default();
    let before = rig;
    rig.look(&MouseInputState::default(), &c, motion(100.0, 0.0), single(0.0));
    assert_eq!(value(rig.yaw), value(before.yaw) + 1.0);
    assert_eq!(rig.pitch.to_bits(), before.pitch.to_bits());
    assert_eq!(rig.distance.to_bits(), before.distance.to_bits());
    assert_eq!(rig.y_offset.to_bits(), before.y_offset.to_bits());
}

#[test]
fn look_matches_the_arithmetic_of_the_machine() {
    let c = config(2.2, 2.2);
    let look_sens = 2.2f32.to_radians() / 10.0;
    let mut rig = CameraOrientation::default();
    let (mut yaw, mut pitch, mut distance) = (0.0f32, 60f32.to_radians(), 50.0f32);
    let moves = [(3.0f32, -2.0f32, 0.0f32), (-250.5, 10.0, 1.0), (0.0, 400.0, -3.0), (17.0, -900.0, 40.0), (1.0, 1.0, -100.0)];
    for (dx, dy, wheel) in moves {
        rig.look(&MouseInputState::default(), &c, motion(dx, dy), single(wheel));
        yaw += dx * look_sens;
        pitch -= dy * look_sens;
        distance -= wheel * 2.2;
        pitch = pitch.max(0f32.to_radians() + f32::EPSILON).min(180f32.to_radians() - f32::EPSILON);
        distance = distance.max(5.).min(100.);
        assert_eq!(rig.yaw.to_bits(), yaw.to_bits());
        assert_eq!(rig.pitch.to_bits(), pitch.to_bits());
        assert_eq!(rig.distance.to_bits(), distance.to_bits());
    }
}

#[test]
fn look_clamps_pitch_and_distance() {
    let c = config(5.729578, 1.0);
    let mut rig = CameraOrientation::default();
    rig.look(&MouseInputState::default(), &c, motion(-950.0, -700.0), single(300.0));
    assert_eq!(value(rig.yaw), -9.5);
    assert_eq!(rig.pitch.to_bits(), PITCH_MAX);
    assert_eq!(rig.distance.to_bits(), DISTANCE_MIN);
    rig.look(&MouseInputState::default(), &c, motion(0.0, 1000.0), single(-1000.0));
    assert_eq!(rig.pitch.to_bits(), PITCH_MIN);
    assert_eq!(rig.distance.to_bits(), DISTANCE_MAX);
}

#[test]
fn look_heals_a_rig_that_was_put_out_of_range() {
    let c = config(1.0, 1.0);
    let mut rig = CameraOrientation::default();
    rig.pitch = single(f32::NAN);
    rig.distance = single(-1.0);
    rig.look(&MouseInputState::default(), &c, motion(0.0, 0.0), single(0.0));
    assert_eq!(rig.pitch.to_bits(), PITCH_MIN);
    assert_eq!(rig.distance.to_bits(), DISTANCE_MIN);
}

#[test]
fn suppressed_mouse_input_is_dropped() {
    let c = config(5.729578, 1.0);
    let mut mouse = MouseInputState::default();
    mouse.toggle();
    assert!(mouse.no_mouse_inputs);
    let mut rig = CameraOrientation::default();
    rig.yaw = single(0.25);
    let before = rig;
    rig.look(&mouse, &c, motion(100.0, 50.0), single(20.0));
    assert_eq!(value(rig.yaw), 0.25);
    assert_eq!(rig.pitch.to_bits(), before.pitch.to_bits());
    assert_eq!(rig.distance.to_bits(), before.distance.to_bits());
    mouse.toggle();
    assert!(!mouse.no_mouse_inputs);
    rig.look(&mouse, &c, motion(100.0, 50.0), single(20.0));
    assert_eq!(value(rig.yaw), 1.25);
    assert_eq!(value(rig.pitch), 60f32.to_radians() - 50.0 * 0.01);
    assert_eq!(value(rig.distance), 30.0);
}

#[test]
fn suppressed_mouse_input_still_clamps() {
    let c = config(5.729578, 1.0);
    let mut mouse = MouseInputState::default();
    mouse.toggle();
    let mut rig = CameraOrientation::default();
    rig.yaw = single(0.25);
    rig.pitch = single(4.0);
    rig.distance = single(500.0);
    rig.look(&mouse, &c, motion(100.0, 50.0), single(20.0));
    assert_eq!(value(rig.yaw), 0.25);
    assert_eq!(value(rig.pitch), 180f32.to_radians() - f32::EPSILON);
    assert_eq!(value(rig.distance), 100.0);
    rig.pitch = single(f32::NAN);
    rig.distance = single(-3.0);
    rig.look(&mouse, &c, motion(0.0, 0.0), single(0.0));
    assert_eq!(rig.pitch.to_bits(), PITCH_MIN);
    assert_eq!(rig.distance.to_bits(), DISTANCE_MIN);
    assert_eq!(value(rig.yaw), 0.25);
}

#[test]
fn motion_of_a_tick_is_added_up() {
    let events = vec![motion(1.5, -2.0), motion(0.25, 0.125), motion(-4.0, 1e-3)];
    let total = total_motion(&events);
    assert_eq!(value(total.x), 0.0f32 + 1.5 + 0.25 + -4.0);
    assert_eq!(value(total.y), 0.0f32 + -2.0 + 0.125 + 1e-3);
    let none = total_motion(&Vec::new());
    assert_eq!((none.x.to_bits(), none.y.to_bits()), (0, 0));
    let wheel = total_wheel(&vec![single(1.0), single(-0.5), single(0.1)]);
    assert_eq!(value(wheel), 0.0f32 + 1.0 + -0.5 + 0.1);
    assert_eq!(total_wheel(&Vec::new()).to_bits(), 0);
}

#[test]
fn camera_stands_on_its_sphere() {
    let mut rig = CameraOrientation::default();
    rig.distance = single(20.0);
    rig.y_offset = single(2.5);
    for pitch in [f32::EPSILON, 0.3, 1.0471976, 1.5707964, 2.5, 3.1415925] {
        let (sin, cos) = pitch.sin_cos();
        let got = rig.camera_translation(Angle { sin: single(sin), cos: single(cos) });
        let recip = 1.0 / (0.0f32 * 0.0 + cos * cos + sin * sin).sqrt();
        let want = (0.0f32 * recip * 20.0 + 0.0, cos * recip * 20.0 + 2.5, sin * recip * 20.0 + 0.0);
        assert_eq!((value(got.x), value(got.y), value(got.z)), want, "{pitch}");
        let radius = (want.0 * want.0 + (want.1 - 2.5) * (want.1 - 2.5) + want.2 * want.2).sqrt();
        assert!((radius - 20.0).abs() < 1e-4);
    }
    let top = rig.camera_translation(Angle { sin: single(0.0), cos: single(1.0) });
    assert_eq!((value(top.x), value(top.y), value(top.z)), (0.0, 22.5, 0.0));
}

#[test]
fn facing_and_pivot() {
    let mut rig = CameraOrientation::default();
    rig.yaw = single(0.75);
    rig.y_offset = single(2.5);
    assert_eq!(value(rig.facing_angle()), -0.75);
    let pivot = rig.pivot();
    assert_eq!((value(pivot.x), value(pivot.y), value(pivot.z)), (0.0, 2.5, 0.0));
    rig.yaw = single(0.0);
    assert_eq!(rig.facing_angle().to_bits(), (-0.0f32).to_bits());
}

#[test]
fn rig_drives_only_its_own_camera() {
    let camera = Entity { id: 7, generation: 2 };
    let mut rig = CameraOrientation::default();
    assert!(!rig.drives(camera));
    rig.attached_entity = Some(camera);
    assert!(rig.drives(camera));
    assert!(!rig.drives(Entity { id: 7, generation: 3 }));
    assert!(!rig.drives(Entity { id: 8, generation: 2 }));
}
