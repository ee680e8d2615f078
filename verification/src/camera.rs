//! The orbit camera: its parameters, how mouse input reaches them, and where
//! they put the camera.
//!
//! The camera sits on a sphere about a pivot above the character. Yaw turns
//! it about the vertical axis, pitch raises and lowers it, distance is the
//! radius. Pitch is kept strictly between straight up and straight down, and
//! distance within fixed bounds, by clamping in every tick, whether mouse
//! input is applied in it or dropped.
use crate::config::Config;
use crate::single::{
    lemma_clamped_idempotent, lemma_clamped_in_range, lemma_rank_orders_numbers,
    lemma_scaled_normal, Single, ZERO,
};
use crate::vector::{Angle, Vec2, Vec3};
use vstd::arithmetic::power2::{lemma2_to64, lemma_pow2_adds, pow2};
use vstd::prelude::*;

verus! {

/// The bits of the smallest pitch, the binary32 epsilon: the camera never
/// looks straight down.
pub const PITCH_MIN: u32 = 0x3400_0000;

/// The bits of the largest pitch: the binary32 value of a half turn less the
/// binary32 epsilon, which rounds to the value just below the half turn.
pub const PITCH_MAX: u32 = 0x4049_0fda;

/// The bits of 5, the smallest distance of the camera from its pivot.
pub const DISTANCE_MIN: u32 = 0x40a0_0000;

/// The bits of 100, the largest distance of the camera from its pivot.
pub const DISTANCE_MAX: u32 = 0x42c8_0000;

/// The bits of the pitch that a new rig starts with: sixty degrees, in radians.
pub const DEFAULT_PITCH: u32 = 0x3f86_0a92;

/// The bits of 50, the distance that a new rig starts with.
pub const DEFAULT_DISTANCE: u32 = 0x4248_0000;

/// The bits of 5, the height of the pivot that a new rig starts with.
pub const DEFAULT_Y_OFFSET: u32 = 0x40a0_0000;

/// The handle of an entity of the host engine: its index and the generation
/// of that index.
#[derive(Clone, Copy, Debug, PartialEq, Eq, Structural)]
pub struct Entity {
    pub id: u32,
    pub generation: u32,
}

/// Whether mouse input is being dropped, as while a menu is open.
#[derive(Clone, Copy, Debug, PartialEq, Eq, Structural)]
pub struct MouseInputState {
    pub no_mouse_inputs: bool,
}

impl Default for MouseInputState {
    /// Mouse input is applied.
    fn default() -> (r: MouseInputState)
        ensures
            !r.no_mouse_inputs,
    {
        MouseInputState { no_mouse_inputs: false }
    }
}

impl MouseInputState {
    /// Switches between applying and dropping mouse input.
    pub fn toggle(&mut self)
        ensures
            final(self).no_mouse_inputs == !old(self).no_mouse_inputs,
    {
        self.no_mouse_inputs = !self.no_mouse_inputs;
    }
}

/// A pitch brought into its range.
pub open spec fn pitch_clamped(pitch: Single) -> Single {
    pitch.clamped(Single { bits: PITCH_MIN }, Single { bits: PITCH_MAX })
}

/// A distance brought into its range.
pub open spec fn distance_clamped(distance: Single) -> Single {
    distance.clamped(Single { bits: DISTANCE_MIN }, Single { bits: DISTANCE_MAX })
}

/// A pitch is within its range.
pub open spec fn pitch_in_range(pitch: Single) -> bool {
    (Single { bits: PITCH_MIN }).at_most(pitch) && pitch.at_most(Single { bits: PITCH_MAX })
}

/// A distance is within its range.
pub open spec fn distance_in_range(distance: Single) -> bool {
    (Single { bits: DISTANCE_MIN }).at_most(distance) && distance.at_most(
        Single { bits: DISTANCE_MAX },
    )
}

/// Brings a pitch into its range. Whatever goes in, NaN and the infinities
/// too, what comes out is in the range, and a pitch in the range comes out as
/// it went in.
pub fn clamp_pitch(pitch: Single) -> (r: Single)
    ensures
        r == pitch_clamped(pitch),
        pitch_in_range(r),
        pitch_in_range(pitch) ==> r == pitch,
{
    proof {
        lemma_clamped_in_range(pitch, Single { bits: PITCH_MIN }, Single { bits: PITCH_MAX });
    }
    pitch.clamp_to(Single { bits: PITCH_MIN }, Single { bits: PITCH_MAX })
}

/// Brings a distance into its range. Whatever goes in, what comes out is in
/// the range, and a distance in the range comes out as it went in.
pub fn clamp_distance(distance: Single) -> (r: Single)
    ensures
        r == distance_clamped(distance),
        distance_in_range(r),
        distance_in_range(distance) ==> r == distance,
{
    proof {
        lemma_clamped_in_range(
            distance,
            Single { bits: DISTANCE_MIN },
            Single { bits: DISTANCE_MAX },
        );
    }
    distance.clamp_to(Single { bits: DISTANCE_MIN }, Single { bits: DISTANCE_MAX })
}

/// The orbit parameters of the camera that follows a character. Angles are in
/// radians.
#[derive(Clone, Copy, Debug)]
pub struct CameraOrientation {
    pub yaw: Single,
    /// Zero looks straight down at the character, a half turn straight up.
    pub pitch: Single,
    pub roll: Single,
    /// From the pivot to the camera.
    pub distance: Single,
    /// The height of the pivot above the character.
    pub y_offset: Single,
    /// The camera that the rig places, if there is one.
    pub attached_entity: Option<Entity>,
}

impl Default for CameraOrientation {
    /// A rig behind and above the character, with no camera attached yet.
    fn default() -> (r: CameraOrientation)
        ensures
            r.yaw == (Single { bits: ZERO }),
            r.pitch == (Single { bits: DEFAULT_PITCH }),
            r.roll == (Single { bits: ZERO }),
            r.distance == (Single { bits: DEFAULT_DISTANCE }),
            r.y_offset == (Single { bits: DEFAULT_Y_OFFSET }),
            r.attached_entity.is_none(),
            r.in_range(),
    {
        CameraOrientation {
            yaw: Single { bits: ZERO },
            pitch: Single { bits: DEFAULT_PITCH },
            roll: Single { bits: ZERO },
            distance: Single { bits: DEFAULT_DISTANCE },
            y_offset: Single { bits: DEFAULT_Y_OFFSET },
            attached_entity: None,
        }
    }
}

/// The pointer motion of a tick: the sum of the motions of its events, added
/// up from zero in the order in which they came.
pub open spec fn total_motion_of(events: Seq<Vec2>) -> Vec2
    decreases events.len(),
{
    if events.len() == 0 {
        Vec2::zero()
    } else {
        total_motion_of(events.drop_last()).plus(events.last())
    }
}

/// The wheel motion of a tick: the sum of the motions of its events.
pub open spec fn total_wheel_of(events: Seq<Single>) -> Single
    decreases events.len(),
{
    if events.len() == 0 {
        Single { bits: ZERO }
    } else {
        total_wheel_of(events.drop_last()).sum(events.last())
    }
}

/// Adds up the pointer motion of a tick.
pub fn total_motion(events: &Vec<Vec2>) -> (r: Vec2)
    ensures
        r == total_motion_of(events@),
{
    let mut total = Vec2 { x: Single { bits: ZERO }, y: Single { bits: ZERO } };
    let mut i: usize = 0;
    while i < events.len()
        invariant
            i <= events.len(),
            total == total_motion_of(events@.take(i as int)),
        decreases events.len() - i,
    {
        proof {
            assert(events@.take(i + 1).drop_last() == events@.take(i as int));
        }
        total = total.add(events[i]);
        i = i + 1;
    }
    proof {
        assert(events@.take(i as int) == events@);
    }
    total
}

/// Adds up the wheel motion of a tick.
pub fn total_wheel(events: &Vec<Single>) -> (r: Single)
    ensures
        r == total_wheel_of(events@),
{
    let mut total = Single { bits: ZERO };
    let mut i: usize = 0;
    while i < events.len()
        invariant
            i <= events.len(),
            total == total_wheel_of(events@.take(i as int)),
        decreases events.len() - i,
    {
        proof {
            assert(events@.take(i + 1).drop_last() == events@.take(i as int));
        }
        total = total.add(events[i]);
        i = i + 1;
    }
    proof {
        assert(events@.take(i as int) == events@);
    }
    total
}

impl CameraOrientation {
    /// Pitch and distance are within their ranges.
    pub open spec fn in_range(self) -> bool {
        pitch_in_range(self.pitch) && distance_in_range(self.distance)
    }

    /// What `look` leaves of the rig.
    pub open spec fn looked(
        self,
        mouse: MouseInputState,
        config: Config,
        motion: Vec2,
        wheel: Single,
    ) -> CameraOrientation {
        if mouse.no_mouse_inputs {
            CameraOrientation {
                pitch: pitch_clamped(self.pitch),
                distance: distance_clamped(self.distance),
                ..self
            }
        } else {
            let look = motion.times(config.look_sens_of());
            CameraOrientation {
                yaw: self.yaw.sum(look.x),
                pitch: pitch_clamped(self.pitch.difference(look.y)),
                distance: distance_clamped(
                    self.distance.difference(wheel.product(config.zoom_sens)),
                ),
                ..self
            }
        }
    }

    /// Applies one tick of mouse input: `motion` is the pointer motion and
    /// `wheel` the wheel motion that have come together in the tick. While
    /// mouse input is dropped the motion is lost: yaw stays, and pitch and
    /// distance move only as far as it takes to bring them into their
    /// ranges. Otherwise the pointer turns yaw and pitch and the wheel moves
    /// the camera in or out, each scaled by its sensitivity. Either way
    /// pitch and distance are clamped: the rig is in range after every tick,
    /// even if it was not before.
    pub fn look(
        &mut self,
        mouse: &MouseInputState,
        config: &Config,
        motion: Vec2,
        wheel: Single,
    )
        ensures
            *final(self) == old(self).looked(*mouse, *config, motion, wheel),
            final(self).in_range(),
            mouse.no_mouse_inputs && old(self).in_range() ==> *final(self) == *old(self),
    {
        if mouse.no_mouse_inputs {
            self.pitch = clamp_pitch(self.pitch);
            self.distance = clamp_distance(self.distance);
            return ;
        }
        let look = motion.scale(config.look_sens());
        self.yaw = self.yaw.add(look.x);
        self.pitch = clamp_pitch(self.pitch.sub(look.y));
        self.distance = clamp_distance(self.distance.sub(wheel.mul(config.zoom_sens)));
    }

    /// What `camera_translation` returns.
    pub open spec fn camera_translation_of(self, pitch: Angle) -> Vec3 {
        (Vec3 { x: Single { bits: ZERO }, y: pitch.cos, z: pitch.sin }).normalized().times(
            self.distance,
        ).plus(Vec3 { x: Single { bits: ZERO }, y: self.y_offset, z: Single { bits: ZERO } })
    }

    /// Where the camera stands, relative to the character: on the sphere
    /// about the pivot, raised by the pitch, of which the sine and the cosine
    /// are given. At pitch zero the camera is straight above the pivot, at a
    /// quarter turn level with it.
    pub fn camera_translation(&self, pitch: Angle) -> (r: Vec3)
        ensures
            r == self.camera_translation_of(pitch),
    {
        Vec3 { x: Single { bits: ZERO }, y: pitch.cos, z: pitch.sin }.normalize().scale(
            self.distance,
        ).add(self.pivot())
    }

    /// The angle about the vertical axis by which the character is turned to
    /// face away from the camera: the yaw, negated.
    pub fn facing_angle(&self) -> (r: Single)
        ensures
            r == self.yaw.negated(),
    {
        self.yaw.neg()
    }

    /// The point that the camera orbits and looks at, relative to the
    /// character: straight above it, at the height of the offset.
    pub fn pivot(&self) -> (r: Vec3)
        ensures
            r == (Vec3 { x: Single { bits: ZERO }, y: self.y_offset, z: Single { bits: ZERO } }),
    {
        Vec3 { x: Single { bits: ZERO }, y: self.y_offset, z: Single { bits: ZERO } }
    }

    /// Whether `camera` is the camera that this rig places.
    pub fn drives(&self, camera: Entity) -> (r: bool)
        ensures
            r == (self.attached_entity == Some(camera)),
    {
        match self.attached_entity {
            Some(e) => e == camera,
            None => false,
        }
    }
}

/// After clamping, a pitch is never below the epsilon nor above the half turn
/// less the epsilon, whatever it was before.
pub proof fn lemma_pitch_always_in_range(pitch: Single)
    ensures
        pitch_in_range(pitch_clamped(pitch)),
{
    lemma_clamped_in_range(pitch, Single { bits: PITCH_MIN }, Single { bits: PITCH_MAX });
}

/// After clamping, a distance is never below 5 nor above 100, whatever it was
/// before.
pub proof fn lemma_distance_always_in_range(distance: Single)
    ensures
        distance_in_range(distance_clamped(distance)),
{
    lemma_clamped_in_range(distance, Single { bits: DISTANCE_MIN }, Single { bits: DISTANCE_MAX });
}

/// The ranges in numbers, counted in units of two to the power of minus 149:
/// a distance in range is at least 5 and at most 100, and a pitch in range is
/// at least two to the power of minus 23 and at most 13176794 times two to
/// the power of minus 22, the binary32 value just below a half turn.
pub proof fn lemma_ranges_in_numbers(pitch: Single, distance: Single)
    ensures
        distance_in_range(distance) ==> 5 * pow2(149) <= distance.scaled() <= 100 * pow2(149),
        pitch_in_range(pitch) ==> pow2(126) <= pitch.scaled() <= 0xc9_0fda * pow2(127),
{
    let d_lo = Single { bits: DISTANCE_MIN };
    let d_hi = Single { bits: DISTANCE_MAX };
    let p_lo = Single { bits: PITCH_MIN };
    let p_hi = Single { bits: PITCH_MAX };
    lemma_rank_orders_numbers(d_lo, distance);
    lemma_rank_orders_numbers(distance, d_hi);
    lemma_rank_orders_numbers(p_lo, pitch);
    lemma_rank_orders_numbers(pitch, p_hi);
    lemma_scaled_normal(d_lo, 129, 0x20_0000);
    lemma_scaled_normal(d_hi, 133, 0x48_0000);
    lemma_scaled_normal(p_lo, 104, 0);
    lemma_scaled_normal(p_hi, 128, 0x49_0fda);
    lemma2_to64();
    lemma_pow2_adds(21, 128);
    lemma_pow2_adds(17, 132);
    lemma_pow2_adds(23, 103);
    assert(0xa0_0000 * pow2(128) == 5 * (pow2(21) * pow2(128))) by (nonlinear_arith)
        requires
            pow2(21) == 0x20_0000,
    ;
    assert(0xc8_0000 * pow2(132) == 100 * (pow2(17) * pow2(132))) by (nonlinear_arith)
        requires
            pow2(17) == 0x2_0000,
    ;
}

/// Clamping a pitch or a distance that was clamped already changes nothing.
pub proof fn lemma_clamps_idempotent(pitch: Single, distance: Single)
    ensures
        pitch_clamped(pitch_clamped(pitch)) == pitch_clamped(pitch),
        distance_clamped(distance_clamped(distance)) == distance_clamped(distance),
{
    lemma_clamped_idempotent(pitch, Single { bits: PITCH_MIN }, Single { bits: PITCH_MAX });
    lemma_clamped_idempotent(distance, Single { bits: DISTANCE_MIN }, Single { bits: DISTANCE_MAX });
}

} // verus!
