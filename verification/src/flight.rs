//! The free camera: a camera that flies where the keys send it and turns with
//! the pointer, without a character to follow.
//!
//! The controller keeps which keys are down and how far the pointer has moved
//! since the camera was last turned. By the keys it moves the camera and
//! changes its field of view; of a turn it says how far it may go. The turn
//! itself takes trigonometry, which the caller does.
use crate::double::Double;
use crate::input::{movement_axis, Input};
use crate::keys::KeyCode;
use crate::motion::axis_of;
use crate::single::{Single, ZERO};
use crate::vector::{Vec2, Vec3};
use std::cmp::Ordering;
use vstd::prelude::*;
use vstd::std_specs::cmp::PartialOrdSpec;

verus! {

/// The bits of 179, the widest field of view in degrees.
pub const FOV_MAX: u32 = 0x4333_0000;

/// The bits of one, the narrowest field of view in degrees.
pub const FOV_MIN: u32 = 0x3f80_0000;

/// The bits of the binary32 value nearest to 89.9, the steepest upward pitch
/// in degrees.
pub const FLY_PITCH_MAX: u32 = 0x42b3_cccd;

/// The bits of the binary32 value nearest to minus 89.9, the steepest
/// downward pitch in degrees.
pub const FLY_PITCH_MIN: u32 = 0xc2b3_cccd;

/// The smaller of two values: `a` if it is less than `b`, and `b` otherwise,
/// so also where the two do not compare.
pub fn min<T: PartialOrd>(a: T, b: T) -> (r: T)
    ensures
        T::obeys_partial_cmp_spec() ==> r == if a.partial_cmp_spec(&b) == Some(Ordering::Less) {
            a
        } else {
            b
        },
{
    if a < b {
        a
    } else {
        b
    }
}

/// The larger of two values: `a` if it is greater than `b`, and `b`
/// otherwise, so also where the two do not compare.
pub fn max<T: PartialOrd>(a: T, b: T) -> (r: T)
    ensures
        T::obeys_partial_cmp_spec() ==> r == if a.partial_cmp_spec(&b) == Some(
            Ordering::Greater,
        ) {
            a
        } else {
            b
        },
{
    if a > b {
        a
    } else {
        b
    }
}

/// A key that the free camera listens to.
#[derive(Clone, Copy, Debug, PartialEq, Eq, Structural)]
pub enum FlightKey {
    Space,
    LShift,
    W,
    A,
    S,
    D,
    Q,
    E,
}

/// What the window reports to the free camera.
#[derive(Clone, Copy, Debug)]
pub enum ControlEvent {
    /// The pointer moved, by so much to the right and so much down.
    MouseMotion { right: Double, down: Double },
    /// A key went down or came up.
    Key { key: FlightKey, pressed: bool },
    /// Anything else.
    Other,
}

/// The state of the free camera's controls.
#[derive(Clone, Copy, Debug)]
pub struct CameraController {
    pub speed: Single,
    pub sens: Single,
    pub is_up_pressed: bool,
    pub is_down_pressed: bool,
    pub is_forward_pressed: bool,
    pub is_backward_pressed: bool,
    pub is_left_pressed: bool,
    pub is_right_pressed: bool,
    pub is_fov_up_pressed: bool,
    pub is_fov_down_pressed: bool,
    pub look_left_amt: Single,
    pub look_up_amt: Single,
}

impl CameraController {
    /// The controller after `event`, and whether the event was meant for it.
    pub open spec fn after(self, event: ControlEvent) -> (CameraController, bool) {
        match event {
            ControlEvent::MouseMotion { right, down } => (
                CameraController {
                    look_left_amt: self.look_left_amt.difference(right.narrowed()),
                    look_up_amt: self.look_up_amt.difference(down.narrowed()),
                    ..self
                },
                true,
            ),
            ControlEvent::Key { key, pressed } => (
                match key {
                    FlightKey::Space => CameraController { is_up_pressed: pressed, ..self },
                    FlightKey::LShift => CameraController { is_down_pressed: pressed, ..self },
                    FlightKey::W => CameraController { is_forward_pressed: pressed, ..self },
                    FlightKey::A => CameraController { is_left_pressed: pressed, ..self },
                    FlightKey::S => CameraController { is_backward_pressed: pressed, ..self },
                    FlightKey::D => CameraController { is_right_pressed: pressed, ..self },
                    FlightKey::Q => CameraController { is_fov_up_pressed: pressed, ..self },
                    FlightKey::E => CameraController { is_fov_down_pressed: pressed, ..self },
                },
                true,
            ),
            ControlEvent::Other => (self, false),
        }
    }

    /// A controller with no key down and nothing left to turn.
    pub fn new(speed: Single, sens: Single) -> (r: CameraController)
        ensures
            r == (CameraController {
                speed,
                sens,
                is_up_pressed: false,
                is_down_pressed: false,
                is_forward_pressed: false,
                is_backward_pressed: false,
                is_left_pressed: false,
                is_right_pressed: false,
                is_fov_up_pressed: false,
                is_fov_down_pressed: false,
                look_left_amt: Single { bits: ZERO },
                look_up_amt: Single { bits: ZERO },
            }),
    {
        CameraController {
            speed,
            sens,
            is_up_pressed: false,
            is_down_pressed: false,
            is_forward_pressed: false,
            is_backward_pressed: false,
            is_left_pressed: false,
            is_right_pressed: false,
            is_fov_up_pressed: false,
            is_fov_down_pressed: false,
            look_left_amt: Single { bits: ZERO },
            look_up_amt: Single { bits: ZERO },
        }
    }

    /// Takes note of an event: a key sets or clears the one control that it
    /// drives, pointer motion is taken off the amounts that are left to turn.
    /// Returns whether the event was meant for the camera, so that the caller
    /// hands on only the others.
    pub fn process_events(&mut self, event: &ControlEvent) -> (consumed: bool)
        ensures
            (*final(self), consumed) == old(self).after(*event),
    {
        match event {
            ControlEvent::MouseMotion { right, down } => {
                self.look_left_amt = self.look_left_amt.sub(right.to_single());
                self.look_up_amt = self.look_up_amt.sub(down.to_single());
                true
            },
            ControlEvent::Key { key, pressed } => {
                let is_pressed = *pressed;
                match key {
                    FlightKey::Space => {
                        self.is_up_pressed = is_pressed;
                    },
                    FlightKey::LShift => {
                        self.is_down_pressed = is_pressed;
                    },
                    FlightKey::W => {
                        self.is_forward_pressed = is_pressed;
                    },
                    FlightKey::A => {
                        self.is_left_pressed = is_pressed;
                    },
                    FlightKey::S => {
                        self.is_backward_pressed = is_pressed;
                    },
                    FlightKey::D => {
                        self.is_right_pressed = is_pressed;
                    },
                    FlightKey::Q => {
                        self.is_fov_up_pressed = is_pressed;
                    },
                    FlightKey::E => {
                        self.is_fov_down_pressed = is_pressed;
                    },
                }
                true
            },
            ControlEvent::Other => false,
        }
    }

    /// Forgets the pointer motion once the camera has been turned by it.
    pub fn finish_look(&mut self)
        ensures
            *final(self) == (CameraController {
                look_left_amt: Single { bits: ZERO },
                look_up_amt: Single { bits: ZERO },
                ..*old(self)
            }),
    {
        self.look_left_amt = Single { bits: ZERO };
        self.look_up_amt = Single { bits: ZERO };
    }
}

/// The bits of 100: the field of view of a new camera is this over its
/// aspect ratio.
pub const FOV_BASE: u32 = 0x42c8_0000;

/// The bits of the binary32 value nearest to 0.1, the near plane of a new
/// camera.
pub const Z_NEAR: u32 = 0x3dcc_cccd;

/// The bits of 10000, the far plane of a new camera.
pub const Z_FAR: u32 = 0x461c_4000;

/// A camera: where it stands, what it looks at, and how it projects.
#[derive(Clone, Copy, Debug)]
pub struct Camera {
    pub eye: Vec3,
    pub target: Vec3,
    pub up: Vec3,
    pub aspect: Single,
    /// The field of view, in degrees.
    pub fovy: Single,
    pub znear: Single,
    pub zfar: Single,
}

impl Camera {
    /// What `new` returns.
    pub open spec fn created(aspect: Single) -> Camera {
        let zero = Single { bits: ZERO };
        let one = Single { bits: crate::single::ONE };
        Camera {
            eye: Vec3 { x: zero, y: one, z: Single { bits: 0x4000_0000 } },
            target: Vec3 { x: zero, y: zero, z: zero },
            up: Vec3 { x: zero, y: one, z: zero },
            aspect,
            fovy: (Single { bits: FOV_BASE }).quotient(aspect),
            znear: Single { bits: Z_NEAR },
            zfar: Single { bits: Z_FAR },
        }
    }

    /// A camera a little above and behind the origin, looking at it.
    pub fn new(aspect: Single) -> (r: Camera)
        ensures
            r == Camera::created(aspect),
    {
        let zero = Single { bits: ZERO };
        let one = Single { bits: crate::single::ONE };
        Camera {
            eye: Vec3 { x: zero, y: one, z: Single { bits: 0x4000_0000 } },
            target: Vec3 { x: zero, y: zero, z: zero },
            up: Vec3 { x: zero, y: one, z: zero },
            aspect,
            fovy: Single { bits: FOV_BASE }.div(aspect),
            znear: Single { bits: Z_NEAR },
            zfar: Single { bits: Z_FAR },
        }
    }

    /// The camera moved as a whole: eye and target by the same step.
    pub open spec fn shifted(self, step: Vec3, forth: bool, back: bool) -> Camera {
        let there = if forth {
            Camera { eye: self.eye.plus(step), target: self.target.plus(step), ..self }
        } else {
            self
        };
        if back {
            Camera { eye: there.eye.minus(step), target: there.target.minus(step), ..there }
        } else {
            there
        }
    }

    fn shift(&mut self, step: Vec3, forth: bool, back: bool)
        ensures
            *final(self) == old(self).shifted(step, forth, back),
    {
        if forth {
            self.eye = self.eye.add(step);
            self.target = self.target.add(step);
        }
        if back {
            self.eye = self.eye.sub(step);
            self.target = self.target.sub(step);
        }
    }
}

/// The bits of 1000, the milliseconds in a second.
pub const MILLIS_PER_SECOND: u32 = 0x447a_0000;

/// What `seconds` returns.
pub open spec fn seconds_of(millis: nat) -> Single {
    Single::from_whole(millis).quotient(Single { bits: MILLIS_PER_SECOND })
}

/// A time of so many milliseconds, in seconds.
pub fn seconds(millis: u128) -> (r: Single)
    ensures
        r == seconds_of(millis as nat),
{
    Single::from_u128(millis).div(Single { bits: MILLIS_PER_SECOND })
}

/// The bits of a million: the speed of the camera is counted per
/// millisecond, and the time is given in nanoseconds.
pub const NANOS_PER_MILLI: u32 = 0x4974_2400;

impl CameraController {
    /// What `speed_for` returns.
    pub open spec fn speed_in(self, nanos: nat) -> Single {
        self.speed.product(
            Single::from_whole(nanos).quotient(Single { bits: NANOS_PER_MILLI }),
        )
    }

    /// How far the camera flies in `nanos` nanoseconds.
    pub fn speed_for(&self, nanos: u128) -> (r: Single)
        ensures
            r == self.speed_in(nanos as nat),
    {
        self.speed.mul(Single::from_u128(nanos).div(Single { bits: NANOS_PER_MILLI }))
    }

    /// The direction in which the camera looks, of length one.
    pub open spec fn forward_of(camera: Camera) -> Vec3 {
        camera.target.minus(camera.eye).normalized()
    }

    /// The direction to the right of the camera, of length one.
    pub open spec fn right_of(camera: Camera) -> Vec3 {
        Self::forward_of(camera).crossed(camera.up).normalized()
    }

    /// What `fly` leaves of the camera: it is moved along the way it looks,
    /// then to its right, then upwards, each by `speed` for the key that is
    /// down and back for the opposite key. The way it looks and its right
    /// are those it had before it moved.
    pub open spec fn flown(self, camera: Camera, speed: Single) -> Camera {
        camera.shifted(
            Self::forward_of(camera).times(speed),
            self.is_forward_pressed,
            self.is_backward_pressed,
        ).shifted(
            Self::right_of(camera).times(speed),
            self.is_right_pressed,
            self.is_left_pressed,
        ).shifted(camera.up.times(speed), self.is_up_pressed, self.is_down_pressed)
    }

    /// Moves the camera by the keys that are down. Returns the direction to
    /// the right of the camera, about which it is then turned up or down.
    pub fn fly(&self, camera: &mut Camera, speed: Single) -> (right: Vec3)
        ensures
            *final(camera) == self.flown(*old(camera), speed),
            right == Self::right_of(*old(camera)),
    {
        let forward = camera.target.sub(camera.eye).normalize();
        let right = forward.cross(camera.up).normalize();
        let up = camera.up;
        camera.shift(forward.scale(speed), self.is_forward_pressed, self.is_backward_pressed);
        camera.shift(right.scale(speed), self.is_right_pressed, self.is_left_pressed);
        camera.shift(up.scale(speed), self.is_up_pressed, self.is_down_pressed);
        right
    }

    /// What `zoom` leaves of the camera.
    pub open spec fn zoomed(self, camera: Camera, speed: Single) -> Camera {
        let wide = if self.is_fov_up_pressed {
            fov_widened(camera.fovy, speed)
        } else {
            camera.fovy
        };
        Camera {
            fovy: if self.is_fov_down_pressed {
                fov_narrowed(wide, speed)
            } else {
                wide
            },
            ..camera
        }
    }

    /// Widens or narrows the field of view by the keys that are down.
    pub fn zoom(&self, camera: &mut Camera, speed: Single)
        ensures
            *final(camera) == self.zoomed(*old(camera), speed),
    {
        if self.is_fov_up_pressed {
            camera.fovy = widen_fov(camera.fovy, speed);
        }
        if self.is_fov_down_pressed {
            camera.fovy = narrow_fov(camera.fovy, speed);
        }
    }
}

/// What `limit_look_up` returns.
pub open spec fn look_up_limited(angle_to_up: Single, angle_to_down: Single, change: Single)
    -> Single {
    if angle_to_down.less(angle_to_up) {
        if angle_to_down.less(change.negated()) {
            angle_to_down
        } else {
            change
        }
    } else {
        if angle_to_up.less(change) {
            angle_to_up
        } else {
            change
        }
    }
}

/// The angle by which the camera may turn upwards, when `change` is asked
/// for and the view is `angle_to_up` short of straight up and `angle_to_down`
/// short of straight down. Nearer to straight up, a change beyond the room
/// that is left is cut to that room. Nearer to straight down, the room that is
/// left is returned where it is less than the change negated.
pub fn limit_look_up(angle_to_up: Single, angle_to_down: Single, change: Single) -> (r: Single)
    ensures
        r == look_up_limited(angle_to_up, angle_to_down, change),
{
    if angle_to_down.lt(angle_to_up) {
        if angle_to_down.lt(change.neg()) {
            angle_to_down
        } else {
            change
        }
    } else {
        if angle_to_up.lt(change) {
            angle_to_up
        } else {
            change
        }
    }
}

/// The bits of 5: the field of view changes by five degrees for each unit
/// of speed.
pub const FOV_RATE: u32 = 0x40a0_0000;

/// What `widen_fov` returns.
pub open spec fn fov_widened(fovy: Single, speed: Single) -> Single {
    let wider = fovy.sum(speed.product(Single { bits: FOV_RATE }));
    if wider.less(Single { bits: FOV_MAX }) {
        wider
    } else {
        Single { bits: FOV_MAX }
    }
}

/// What `narrow_fov` returns.
pub open spec fn fov_narrowed(fovy: Single, speed: Single) -> Single {
    let narrower = fovy.difference(speed.product(Single { bits: FOV_RATE }));
    if (Single { bits: FOV_MIN }).less(narrower) {
        narrower
    } else {
        Single { bits: FOV_MIN }
    }
}

/// The field of view after widening it at `speed`: never above 179 degrees.
pub fn widen_fov(fovy: Single, speed: Single) -> (r: Single)
    ensures
        r == fov_widened(fovy, speed),
        r.at_most(Single { bits: FOV_MAX }),
{
    min(fovy.add(speed.mul(Single { bits: FOV_RATE })), Single { bits: FOV_MAX })
}

/// The field of view after narrowing it at `speed`: never below one degree.
pub fn narrow_fov(fovy: Single, speed: Single) -> (r: Single)
    ensures
        r == fov_narrowed(fovy, speed),
        (Single { bits: FOV_MIN }).at_most(r),
{
    max(fovy.sub(speed.mul(Single { bits: FOV_RATE })), Single { bits: FOV_MIN })
}

/// What `limit_fly_pitch` returns.
pub open spec fn fly_pitch_limited(pitch: Single) -> Single {
    if (Single { bits: FLY_PITCH_MAX }).less(pitch) {
        Single { bits: FLY_PITCH_MAX }
    } else if pitch.less(Single { bits: FLY_PITCH_MIN }) {
        Single { bits: FLY_PITCH_MIN }
    } else {
        pitch
    }
}

/// Keeps the pitch of the free camera, in degrees, short of straight up and
/// straight down. A pitch that is NaN stays as it is.
pub fn limit_fly_pitch(pitch: Single) -> (r: Single)
    ensures
        r == fly_pitch_limited(pitch),
{
    let mut pitch = pitch;
    if pitch.gt(Single { bits: FLY_PITCH_MAX }) {
        pitch = Single { bits: FLY_PITCH_MAX };
    }
    if pitch.lt(Single { bits: FLY_PITCH_MIN }) {
        pitch = Single { bits: FLY_PITCH_MIN };
    }
    pitch
}

/// The bits of 10, the speed that a free camera starts with.
pub const FLY_SPEED: u32 = 0x4120_0000;

/// The bits of 3, the sensitivity that a free camera starts with.
pub const FLY_SENSITIVITY: u32 = 0x4040_0000;

/// The settings and the state of a camera that flies by the keys.
#[derive(Clone, Copy, Debug)]
pub struct ModifiedFlyCameraOptions {
    pub speed: Single,
    pub sensitivity: Single,
    /// In degrees.
    pub pitch: Single,
    /// In degrees.
    pub yaw: Single,
    /// Whether the camera flies, or stays where it is.
    pub free: bool,
    pub key_forward: KeyCode,
    pub key_backward: KeyCode,
    pub key_left: KeyCode,
    pub key_right: KeyCode,
    pub key_up: KeyCode,
    pub key_down: KeyCode,
}

impl Default for ModifiedFlyCameraOptions {
    /// A free camera that looks straight ahead and flies by W, A, S and D,
    /// up by the space bar and down by the left shift key.
    fn default() -> (r: ModifiedFlyCameraOptions)
        ensures
            r == (ModifiedFlyCameraOptions {
                speed: Single { bits: FLY_SPEED },
                sensitivity: Single { bits: FLY_SENSITIVITY },
                pitch: Single { bits: ZERO },
                yaw: Single { bits: ZERO },
                free: true,
                key_forward: KeyCode::W,
                key_backward: KeyCode::S,
                key_left: KeyCode::A,
                key_right: KeyCode::D,
                key_up: KeyCode::Space,
                key_down: KeyCode::LShift,
            }),
    {
        ModifiedFlyCameraOptions {
            speed: Single { bits: FLY_SPEED },
            sensitivity: Single { bits: FLY_SENSITIVITY },
            pitch: Single { bits: ZERO },
            yaw: Single { bits: ZERO },
            free: true,
            key_forward: KeyCode::W,
            key_backward: KeyCode::S,
            key_left: KeyCode::A,
            key_right: KeyCode::D,
            key_up: KeyCode::Space,
            key_down: KeyCode::LShift,
        }
    }
}

impl ModifiedFlyCameraOptions {
    /// What `movement` returns: along each of the three directions, the
    /// axis of its two keys times the speed times the time, and the three
    /// added up. Backward counts as plus on the forward axis.
    pub open spec fn movement_of(
        self,
        input: Input<KeyCode>,
        forward: Vec3,
        strafe: Vec3,
        dt: Single,
    ) -> Vec3 {
        let held = |key: KeyCode| input.pressed@.contains(key);
        let axis_h = axis_of(held(self.key_right), held(self.key_left));
        let axis_v = axis_of(held(self.key_backward), held(self.key_forward));
        let axis_float = axis_of(held(self.key_up), held(self.key_down));
        let up = Vec3 {
            x: Single { bits: ZERO },
            y: Single { bits: crate::single::ONE },
            z: Single { bits: ZERO },
        };
        forward.times(axis_v).times(self.speed).times(dt).plus(
            strafe.times(axis_h).times(self.speed).times(dt),
        ).plus(up.times(axis_float).times(self.speed).times(dt))
    }

    /// How far the camera flies in the time `dt`, from the keys that are
    /// down. `forward` and `strafe` are the directions of the camera in the
    /// ground plane.
    pub fn movement(&self, input: &Input<KeyCode>, forward: Vec3, strafe: Vec3, dt: Single) -> (r:
        Vec3)
        ensures
            r == self.movement_of(*input, forward, strafe, dt),
    {
        let axis_h = movement_axis(input, self.key_right, self.key_left);
        let axis_v = movement_axis(input, self.key_backward, self.key_forward);
        let axis_float = movement_axis(input, self.key_up, self.key_down);
        let up = Vec3 {
            x: Single { bits: ZERO },
            y: Single { bits: crate::single::ONE },
            z: Single { bits: ZERO },
        };
        forward.scale(axis_v).scale(self.speed).scale(dt).add(
            strafe.scale(axis_h).scale(self.speed).scale(dt),
        ).add(up.scale(axis_float).scale(self.speed).scale(dt))
    }

    /// What `turn` leaves of the options.
    pub open spec fn turned(self, delta: Vec2, dt: Single) -> ModifiedFlyCameraOptions {
        if delta.vanishes() {
            self
        } else {
            ModifiedFlyCameraOptions {
                yaw: self.yaw.difference(delta.x.product(self.sensitivity).product(dt)),
                pitch: fly_pitch_limited(
                    self.pitch.sum(delta.y.product(self.sensitivity).product(dt)),
                ),
                ..self
            }
        }
    }

    /// Turns the camera by the pointer motion `delta` of a tick that took
    /// the time `dt`. No motion, no turn. The pitch is kept short of straight
    /// up and straight down.
    pub fn turn(&mut self, delta: Vec2, dt: Single)
        ensures
            *final(self) == old(self).turned(delta, dt),
    {
        if delta.is_zero() {
            return ;
        }
        self.yaw = self.yaw.sub(delta.x.mul(self.sensitivity).mul(dt));
        self.pitch = limit_fly_pitch(self.pitch.add(delta.y.mul(self.sensitivity).mul(dt)));
    }
}

} // verus!
