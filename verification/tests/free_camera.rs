use character_controller::double::Double;
use character_controller::flight::{
    limit_fly_pitch, limit_look_up, max, min, narrow_fov, seconds, widen_fov, Camera,
    CameraController,
    ControlEvent, FlightKey, ModifiedFlyCameraOptions, FLY_PITCH_MAX, FLY_PITCH_MIN,
    FLY_SENSITIVITY, FLY_SPEED, FOV_BASE, FOV_MAX, FOV_MIN, FOV_RATE, MILLIS_PER_SECOND,
    NANOS_PER_MILLI, Z_FAR, Z_NEAR,
};
use character_controller::input::Input;
use character_controller::keys::KeyCode;
use character_controller::single::Single;
use character_controller::vector::{Vec2, Vec3};

fn single(x: f32) -> Single {
    Single::from_bits(x.to_bits())
}

fn value(s: Single) -> f32 {
    f32::from_bits(s.to_bits())
}

fn flags(c: &CameraController) -> [bool; 8] {
    [
        c.is_up_pressed,
        c.is_down_pressed,
        c.is_forward_pressed,
        c.is_backward_pressed,
        c.is_left_pressed,
        c.is_right_pressed,
        c.is_fov_up_pressed,
        c.is_fov_down_pressed,
    ]
}

fn samples() -> Vec<f32> {
    vec![-200.0, -90.0, -89.9, -1.0, -0.0, 0.0, 0.5, 1.0, 2.0, 89.9, 90.0, 179.0, 180.0, f32::NAN]
}

#[test]
fn limits_are_the_values_they_name() {
    assert_eq!(FOV_MAX, 179.0f32.to_bits());
    assert_eq!(FOV_MIN, 1.0f32.to_bits());
    assert_eq!(FLY_PITCH_MAX, 89.9f32.to_bits());
    assert_eq!(FLY_PITCH_MIN, (-89.9f32).to_bits());
}

#[test]
fn generic_min_and_max() {
    assert_eq!(min(3, 5), 3);
    assert_eq!(min(5, 3), 3);
    assert_eq!(max(3, 5), 5);
    assert_eq!(max(5, 3), 5);
    assert_eq!(min("b", "a"), "a");
    for a in samples() {
        for b in samples() {
            let want_min = if a < b { a } else { b };
            let want_max = if a > b { a } else { b };
            assert_eq!(min(single(a), single(b)).to_bits(), want_min.to_bits());
            assert_eq!(max(single(a), single(b)).to_bits(), want_max.to_bits());
        }
    }
    // What does not compare gives the second argument.
    assert_eq!(value(min(single(f32::NAN), single(2.0))), 2.0);
    assert!(min(single(2.0), single(f32::NAN)).is_nan());
}

#[test]
fn new_controller_is_idle() {
    let c = CameraController::new(single(0.02), single(5.0));
    assert_eq!(value(c.speed), 0.02);
    assert_eq!(value(c.sens), 5.0);
    assert_eq!(flags(&c), [false; 8]);
    assert_eq!(c.look_left_amt.to_bits(), 0);
    assert_eq!(c.look_up_amt.to_bits(), 0);
}

#[test]
fn each_key_drives_one_control() {
    let keys = [
        FlightKey::Space,
        FlightKey::LShift,
        FlightKey::W,
        FlightKey::S,
        FlightKey::A,
        FlightKey::D,
        FlightKey::Q,
        FlightKey::E,
    ];
    for (i, key) in keys.into_iter().enumerate() {
        let mut c = CameraController::new(single(1.0), single(1.0));
        assert!(c.process_events(&ControlEvent::Key { key, pressed: true }));
        let mut want = [false; 8];
        want[i] = true;
        assert_eq!(flags(&c), want, "{key:?}");
        assert!(c.process_events(&ControlEvent::Key { key, pressed: false }));
        assert_eq!(flags(&c), [false; 8]);
    }
}

#[test]
fn keys_add_up() {
    let mut c = CameraController::new(single(1.0), single(1.0));
    c.process_events(&ControlEvent::Key { key: FlightKey::W, pressed: true });
    c.process_events(&ControlEvent::Key { key: FlightKey::D, pressed: true });
    c.process_events(&ControlEvent::Key { key: FlightKey::W, pressed: false });
    assert!(!c.is_forward_pressed);
    assert!(c.is_right_pressed);
}

#[test]
fn pointer_motion_is_kept_until_the_camera_turns() {
    let mut c = CameraController::new(single(1.0), single(1.0));
    let motion = |dx: f64, dy: f64| ControlEvent::MouseMotion {
        right: Double::from_bits(dx.to_bits()),
        down: Double::from_bits(dy.to_bits()),
    };
    assert!(c.process_events(&motion(3.5, -1.25)));
    assert_eq!(value(c.look_left_amt), -3.5);
    assert_eq!(value(c.look_up_amt), 1.25);
    assert!(c.process_events(&motion(0.1, 1e-9)));
    assert_eq!(value(c.look_left_amt), 0.0f32 - 3.5f64 as f32 - 0.1f64 as f32);
    assert_eq!(value(c.look_up_amt), 0.0f32 - (-1.25f64) as f32 - 1e-9f64 as f32);
    assert_eq!(flags(&c), [false; 8]);
    c.finish_look();
    assert_eq!(c.look_left_amt.to_bits(), 0);
    assert_eq!(c.look_up_amt.to_bits(), 0);
}

#[test]
fn other_events_are_handed_on() {
    let mut c = CameraController::new(single(1.0), single(1.0));
    c.process_events(&ControlEvent::Key { key: FlightKey::Q, pressed: true });
    let before = flags(&c);
    assert!(!c.process_events(&ControlEvent::Other));
    assert_eq!(flags(&c), before);
}

#[test]
fn look_up_is_cut_to_the_room_that_is_left() {
    let reference = |up: f32, down: f32, change: f32| -> f32 {
        if down < up {
            if down < -change {
                down
            } else {
                change
            }
        } else {
            if up < change {
                up
            } else {
                change
            }
        }
    };
    for up in samples() {
        for down in samples() {
            for change in samples() {
                let got = limit_look_up(single(up), single(down), single(change));
                assert_eq!(got.to_bits(), reference(up, down, change).to_bits());
            }
        }
    }
    assert_eq!(value(limit_look_up(single(0.2), single(2.9), single(0.5))), 0.2);
    assert_eq!(value(limit_look_up(single(0.2), single(2.9), single(0.1))), 0.1);
    assert_eq!(value(limit_look_up(single(2.9), single(0.2), single(-0.5))), 0.2);
    assert_eq!(value(limit_look_up(single(2.9), single(0.2), single(-0.1))), -0.1);
}

#[test]
fn field_of_view_stays_between_one_and_179() {
    assert_eq!(FOV_RATE, 5.0f32.to_bits());
    for x in samples() {
        for speed in [0.0f32, 0.02, 0.32, 40.0, f32::NAN] {
            let wider = x + speed * 5.0;
            let want_up = if wider < 179.0 { wider } else { 179.0 };
            let narrower = x - speed * 5.0;
            let want_down = if narrower > 1.0 { narrower } else { 1.0 };
            assert_eq!(widen_fov(single(x), single(speed)).to_bits(), want_up.to_bits());
            assert_eq!(narrow_fov(single(x), single(speed)).to_bits(), want_down.to_bits());
        }
    }
    assert_eq!(value(widen_fov(single(100.0), single(0.5))), 102.5);
    assert_eq!(value(widen_fov(single(178.0), single(0.5))), 179.0);
    assert_eq!(value(narrow_fov(single(100.0), single(0.5))), 97.5);
    assert_eq!(value(narrow_fov(single(2.0), single(0.5))), 1.0);
}

#[test]
fn fly_pitch_stays_short_of_vertical() {
    for x in samples() {
        let mut want = x;
        if want > 89.9 {
            want = 89.9;
        }
        if want < -89.9 {
            want = -89.9;
        }
        assert_eq!(limit_fly_pitch(single(x)).to_bits(), want.to_bits());
    }
    assert_eq!(value(limit_fly_pitch(single(45.0))), 45.0);
    assert_eq!(value(limit_fly_pitch(single(120.0))), 89.9);
    assert_eq!(value(limit_fly_pitch(single(-120.0))), -89.9);
}

#[test]
fn default_fly_camera() {
    assert_eq!(FLY_SPEED, 10.0f32.to_bits());
    assert_eq!(FLY_SENSITIVITY, 3.0f32.to_bits());
    let o = ModifiedFlyCameraOptions::default();
    assert_eq!(value(o.speed), 10.0);
    assert_eq!(value(o.sensitivity), 3.0);
    assert_eq!((o.pitch.to_bits(), o.yaw.to_bits()), (0, 0));
    assert!(o.free);
    assert_eq!(
        [o.key_forward, o.key_backward, o.key_left, o.key_right, o.key_up, o.key_down],
        [KeyCode::W, KeyCode::S, KeyCode::A, KeyCode::D, KeyCode::Space, KeyCode::LShift]
    );
}

#[test]
fn fly_camera_moves_by_the_keys() {
    let o = ModifiedFlyCameraOptions::default();
    let forward = Vec3::new(single(0.6), single(0.0), single(0.8));
    let strafe = Vec3::new(single(0.8), single(0.0), single(-0.6));
    let keys = |pressed: Vec<KeyCode>| Input { pressed, just_pressed: vec![], just_released: vec![] };
    let dt = 0.02f32;
    let go = |pressed: Vec<KeyCode>| {
        let d = o.movement(&keys(pressed), forward, strafe, single(dt));
        (value(d.x), value(d.y), value(d.z))
    };
    let part = |v: f32, axis: f32| v * axis * 10.0 * dt;
    let sum = |v: f32, h: f32, f: f32| {
        (
            part(0.6, v) + part(0.8, h) + part(0.0, f),
            part(0.0, v) + part(0.0, h) + part(1.0, f),
            part(0.8, v) + part(-0.6, h) + part(0.0, f),
        )
    };
    assert_eq!(go(vec![]), sum(0.0, 0.0, 0.0));
    // Forward is minus on its axis.
    assert_eq!(go(vec![KeyCode::W]), sum(-1.0, 0.0, 0.0));
    assert_eq!(go(vec![KeyCode::S, KeyCode::D]), sum(1.0, 1.0, 0.0));
    assert_eq!(go(vec![KeyCode::A, KeyCode::Space]), sum(0.0, -1.0, 1.0));
    assert_eq!(go(vec![KeyCode::LShift, KeyCode::W, KeyCode::S]), sum(0.0, 0.0, -1.0));
}

#[test]
fn fly_camera_turns_by_the_pointer() {
    let mut o = ModifiedFlyCameraOptions::default();
    let dt = 0.016f32;
    o.turn(Vec2::new(single(0.0), single(-0.0)), single(dt));
    assert_eq!((o.pitch.to_bits(), o.yaw.to_bits()), (0, 0));
    o.turn(Vec2::new(single(12.0), single(-5.0)), single(dt));
    assert_eq!(value(o.yaw), 0.0f32 - 12.0 * 3.0 * dt);
    assert_eq!(value(o.pitch), 0.0f32 + -5.0 * 3.0 * dt);
    o.turn(Vec2::new(single(0.0), single(9000.0)), single(dt));
    assert_eq!(value(o.pitch), 89.9);
    o.turn(Vec2::new(single(1.0), single(-90000.0)), single(dt));
    assert_eq!(value(o.pitch), -89.9);
}

fn values(v: Vec3) -> [f32; 3] {
    [value(v.x), value(v.y), value(v.z)]
}

#[test]
fn new_camera() {
    assert_eq!(FOV_BASE, 100.0f32.to_bits());
    assert_eq!(Z_NEAR, 0.1f32.to_bits());
    assert_eq!(Z_FAR, 10000.0f32.to_bits());
    let camera = Camera::new(single(1.6));
    assert_eq!(values(camera.eye), [0.0, 1.0, 2.0]);
    assert_eq!(values(camera.target), [0.0, 0.0, 0.0]);
    assert_eq!(values(camera.up), [0.0, 1.0, 0.0]);
    assert_eq!(value(camera.aspect), 1.6);
    assert_eq!(value(camera.fovy), 100.0 / 1.6f32);
    assert_eq!((value(camera.znear), value(camera.zfar)), (0.1, 10000.0));
}

#[test]
fn camera_flies_by_the_keys() {
    let normalize = |v: [f32; 3]| -> [f32; 3] {
        let k = 1.0 / (v[0] * v[0] + v[1] * v[1] + v[2] * v[2]).sqrt();
        [v[0] * k, v[1] * k, v[2] * k]
    };
    let keys = [FlightKey::W, FlightKey::S, FlightKey::D, FlightKey::A, FlightKey::Space, FlightKey::LShift];
    for mask in 0u32..64 {
        let mut controller = CameraController::new(single(0.02), single(5.0));
        for (i, key) in keys.into_iter().enumerate() {
            controller.process_events(&ControlEvent::Key { key, pressed: mask & (1 << i) != 0 });
        }
        let mut camera = Camera::new(single(1.5));
        camera.eye = Vec3::new(single(0.3), single(1.25), single(2.0));
        let speed = 0.32f32;

        let (mut eye, mut target, up) = ([0.3f32, 1.25, 2.0], [0.0f32; 3], [0.0f32, 1.0, 0.0]);
        let forward = normalize([target[0] - eye[0], target[1] - eye[1], target[2] - eye[2]]);
        let right = normalize([
            forward[1] * up[2] - forward[2] * up[1],
            forward[2] * up[0] - forward[0] * up[2],
            forward[0] * up[1] - forward[1] * up[0],
        ]);
        for (i, step) in [forward, forward, right, right, up, up].into_iter().enumerate() {
            if mask & (1 << i) != 0 {
                for c in 0..3 {
                    if i % 2 == 0 {
                        eye[c] += step[c] * speed;
                        target[c] += step[c] * speed;
                    } else {
                        eye[c] -= step[c] * speed;
                        target[c] -= step[c] * speed;
                    }
                }
            }
        }

        let got_right = controller.fly(&mut camera, single(speed));
        assert_eq!(values(got_right), right, "{mask}");
        assert_eq!(values(camera.eye), eye, "{mask}");
        assert_eq!(values(camera.target), target, "{mask}");
        assert_eq!(values(camera.up), up);
    }
}

#[test]
fn camera_zooms_by_the_keys() {
    let mut controller = CameraController::new(single(0.02), single(5.0));
    let mut camera = Camera::new(single(1.0));
    controller.zoom(&mut camera, single(0.5));
    assert_eq!(value(camera.fovy), 100.0);
    controller.process_events(&ControlEvent::Key { key: FlightKey::Q, pressed: true });
    controller.zoom(&mut camera, single(0.5));
    assert_eq!(value(camera.fovy), 102.5);
    controller.process_events(&ControlEvent::Key { key: FlightKey::E, pressed: true });
    controller.zoom(&mut camera, single(0.5));
    assert_eq!(value(camera.fovy), 102.5 + 2.5 - 2.5);
    controller.process_events(&ControlEvent::Key { key: FlightKey::Q, pressed: false });
    controller.zoom(&mut camera, single(30.0));
    assert_eq!(value(camera.fovy), 1.0);
}

#[test]
fn camera_speed_is_per_millisecond() {
    assert_eq!(NANOS_PER_MILLI, 1_000_000.0f32.to_bits());
    let controller = CameraController::new(single(0.02), single(5.0));
    for nanos in [0u128, 1, 999_999, 1_000_000, 16_666_667, 33_333_333, 1_000_000_007, u64::MAX as u128] {
        let want = 0.02f32 * (nanos as f32 / 1_000_000.0);
        assert_eq!(value(controller.speed_for(nanos)), want, "{nanos}");
    }
    assert_eq!(value(controller.speed_for(16_000_000)), 0.32);
}

#[test]
fn milliseconds_in_seconds() {
    assert_eq!(MILLIS_PER_SECOND, 1000.0f32.to_bits());
    for millis in [0u128, 1, 16, 17, 999, 1000, 1001, 123_456_789, u64::MAX as u128] {
        let mut want = millis as f32;
        want /= 1000.0;
        assert_eq!(value(seconds(millis)), want, "{millis}");
    }
}
