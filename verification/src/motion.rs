//! The character's motion: one simulation tick.
//!
//! A tick takes the state of the controls, the direction of the camera, the
//! clock and the time that has passed, and moves the character: it turns the
//! keys into a direction, accelerates along it, lets gravity pull and
//! friction slow, caps the walking speed, starts and decays a dash, moves the
//! character by its velocities, and lets it land or jump. The steps are
//! functions of their own, each with the specification of what it computes,
//! and `Physics::tick` puts them together.
//!
//! What a tick has no means for is trigonometry: of the camera's yaw it takes
//! the sine and the cosine.
use crate::arith_laws::{
    lemma_difference_of_equals, lemma_product_of_zero, lemma_product_ordered,
    lemma_product_with_fraction, lemma_remainder_ordered, lemma_root_finite, lemma_root_of_one,
    lemma_root_of_square, lemma_root_ordered, lemma_rounded_at_least, lemma_rounded_at_most,
    lemma_rounded_rounds,
    lemma_sum_of_opposites, lemma_sum_with_zero,
};
use crate::double::Double;
use crate::ieee::lemma_scaled_of_zero;
use crate::rounding::{lemma_units_ordered, units};
use crate::input::Controls;
use crate::single::{lemma_scaled_normal, Single, EPSILON, ONE, ZERO};
use crate::vector::{
    lemma_plus_zero_vector, lemma_zero_vector_length, lemma_zero_vector_times,
    lemma_zero_vector_times_3, Angle, RotatableVector, Vec2, Vec2toVec3, Vec3,
};
use vstd::arithmetic::power2::{lemma2_to64, lemma_pow2_adds, pow2};
use vstd::prelude::*;

verus! {

/// The bits of minus one.
pub const MINUS_ONE: u32 = 0xbf80_0000;

/// The bits of 15, the upward speed that a jump sets.
pub const JUMP_IMPULSE: u32 = 0x4170_0000;

/// The bits of 5, the launch speed handed to the gravity model.
pub const LAUNCH_VELOCITY: u32 = 0x40a0_0000;

/// The bits of the binary32 value nearest to 0.1: below this walking speed,
/// friction stops the character outright.
pub const LOW_SPEED: u32 = 0x3dcc_cccd;

/// The bits of one half: up to here the dash keeps its full strength.
pub const FALLOFF_FULL_UNTIL: u32 = 0x3f00_0000;

/// The bits of the binary32 value nearest to 0.9: up to here the dash decays
/// along a square root.
pub const FALLOFF_ROOT_UNTIL: u32 = 0x3f66_6666;

/// The bits of the binary32 value nearest to 0.88: a dash that has come no
/// further than this on the square root is still stronger than it is anywhere
/// on the line that follows.
pub const FALLOFF_ABOVE_UNTIL: u32 = 0x3f61_47ae;

/// The bits of one eighth, the root of one sixty-fourth.
pub const EIGHTH: u32 = 0x3e00_0000;

/// The bits of one sixty-fourth, which is less than 0.9 less 0.88.
pub const SIXTY_FOURTH: u32 = 0x3c80_0000;

/// The bits of the binary32 value nearest to 9.8, the pull of the default
/// gravity model.
pub const DEFAULT_GRAVITY: u32 = 0x411c_cccd;

/// The bits of the binary64 value minus 100, a time before any clock reading.
pub const LONG_AGO: u64 = 0xc059_0000_0000_0000;

/// The bits of minus 5, by which the walking velocity is multiplied for the
/// dynamic part of friction.
pub const DYNAMIC_FRICTION: u32 = 0xc0a0_0000;

/// The bits of minus 15, by which the walking direction is multiplied for
/// the static part of friction.
pub const STATIC_FRICTION: u32 = 0xc170_0000;

/// The bits of the binary32 value nearest to 0.4, the factor of the two
/// decaying pieces of the falloff curve.
pub const FALLOFF_SCALE: u32 = 0x3ecc_cccd;

/// The bits of 50, the speed of a dash at full strength.
pub const DASH_SPEED: u32 = 0x4248_0000;

/// The bits of the binary64 value 3: a dash lasts a third of a second.
pub const DASH_RATE: u64 = 0x4008_0000_0000_0000;

/// How hard gravity pulls, as a function of the time since the last jump and
/// of the launch speed. The result is a magnitude: the pull is downwards.
#[derive(Clone, Copy, Debug)]
pub enum GravityModel {
    /// The same pull at all times.
    Constant(Single),
    /// A pull that grows from the start of the jump, by `rate` per second,
    /// and stops growing at `peak`.
    Ramp { rate: Single, peak: Single },
    /// A pull that is least half a second after the start of the jump,
    /// where it is `floor`, grows with the square of the time from there,
    /// and stops growing at `peak`.
    Parabolic { floor: Single, peak: Single },
}

impl GravityModel {
    /// What `pull` returns.
    pub open spec fn pull_of(self, elapsed: Single, launch_velocity: Single) -> Single {
        match self {
            GravityModel::Constant(g) => g,
            GravityModel::Ramp { rate, peak } => peak.min_of(rate.product(elapsed)),
            GravityModel::Parabolic { floor, peak } => {
                let off = elapsed.difference(Single { bits: FALLOFF_FULL_UNTIL });
                peak.min_of(off.product(off).sum(floor))
            },
        }
    }

    /// The downward acceleration `elapsed` seconds after a jump that started
    /// at `launch_velocity`.
    pub fn pull(&self, elapsed: Single, launch_velocity: Single) -> (r: Single)
        ensures
            r == self.pull_of(elapsed, launch_velocity),
    {
        match self {
            GravityModel::Constant(g) => *g,
            GravityModel::Ramp { rate, peak } => peak.min(rate.mul(elapsed)),
            GravityModel::Parabolic { floor, peak } => {
                let off = elapsed.sub(Single { bits: FALLOFF_FULL_UNTIL });
                peak.min(off.mul(off).add(*floor))
            },
        }
    }
}

/// The tuning of a character, fixed when it is spawned.
#[derive(Clone, Copy, Debug)]
pub struct PhysicsProperties {
    pub movement_speed_ground: Single,
    pub movement_speed_air: Single,
    pub movement_acceleration: Single,
    pub dash_cooldown: Double,
}

impl PhysicsProperties {
    /// The speed by which the movement intent is scaled: the air speed while
    /// the character is in the air, the ground speed while it stands.
    pub fn intent_speed(&self, in_air: bool) -> (r: Single)
        ensures
            r == if in_air {
                self.movement_speed_air
            } else {
                self.movement_speed_ground
            },
    {
        if in_air {
            self.movement_speed_air
        } else {
            self.movement_speed_ground
        }
    }

    /// Whether a walking speed is above the ground speed cap, so that the
    /// walking velocity has to be scaled back to the cap.
    pub fn exceeds_cap(&self, speed: Single) -> (r: bool)
        ensures
            r == self.movement_speed_ground.less(speed),
    {
        speed.gt(self.movement_speed_ground)
    }

    /// The speeds are numbers, the ground speed is above zero, and the
    /// acceleration over the ground speed is a number too.
    pub open spec fn valid(self) -> bool {
        &&& self.movement_speed_ground.finite()
        &&& (Single { bits: ZERO }).less(self.movement_speed_ground)
        &&& self.movement_speed_air.finite()
        &&& self.movement_acceleration.quotient(self.movement_speed_ground).finite()
    }

    /// What `acceleration` returns: the direction, scaled by the speed for
    /// the footing and then by the acceleration over the ground speed.
    pub open spec fn acceleration_of(self, direction: Vec2, in_air: bool) -> Vec2 {
        direction.times(
            if in_air {
                self.movement_speed_air
            } else {
                self.movement_speed_ground
            },
        ).times(self.movement_acceleration.quotient(self.movement_speed_ground))
    }

    /// The acceleration of a character that wants to go in `direction`.
    pub fn acceleration(&self, direction: Vec2, in_air: bool) -> (r: Vec2)
        ensures
            r == self.acceleration_of(direction, in_air),
    {
        direction.scale(self.intent_speed(in_air)).scale(
            self.movement_acceleration.div(self.movement_speed_ground),
        )
    }

    /// What `cap` returns: a walking velocity faster than the ground speed
    /// is brought to that speed, in its direction.
    pub open spec fn capped(self, walking: Vec2) -> Vec2 {
        if self.movement_speed_ground.less(walking.length_of()) {
            walking.normalized().times(self.movement_speed_ground)
        } else {
            walking
        }
    }

    /// Caps a walking velocity at the ground speed.
    pub fn cap(&self, walking: Vec2) -> (r: Vec2)
        ensures
            r == self.capped(walking),
    {
        if self.exceeds_cap(walking.length()) {
            walking.normalize().scale(self.movement_speed_ground)
        } else {
            walking
        }
    }
}

/// What `direction` returns: the intent, brought to length one if it has a
/// direction at all, and turned to where the camera looks.
pub open spec fn direction_of(intent: Vec2, yaw: Angle) -> Vec2 {
    (if intent.vanishes() {
        intent
    } else {
        intent.normalized()
    }).rotated(yaw.quarter_back_of())
}

/// The direction in the ground plane in which the keys send the character,
/// from the yaw of the camera. The intent is turned by the yaw less a
/// quarter turn, so that forward is where the camera looks: down the negative
/// `y` axis of the plane at yaw zero.
pub fn direction(intent: Vec2, yaw: Angle) -> (r: Vec2)
    ensures
        r == direction_of(intent, yaw),
{
    if has_direction(intent) {
        intent.normalize().rotate_ang(yaw.quarter_back())
    } else {
        intent.rotate_ang(yaw.quarter_back())
    }
}

/// What one directional axis contributes: one for the positive key, minus one
/// for the negative key, and positive zero for both or neither.
pub open spec fn axis_of(plus: bool, minus: bool) -> Single {
    if plus && !minus {
        Single { bits: ONE }
    } else if minus && !plus {
        Single { bits: MINUS_ONE }
    } else {
        Single { bits: ZERO }
    }
}

/// The value of an axis that two keys drive in opposite directions, from
/// whether each of them is down.
pub fn axis_value(plus: bool, minus: bool) -> (axis: Single)
    ensures
        axis == axis_of(plus, minus),
{
    if plus && !minus {
        Single { bits: ONE }
    } else if minus && !plus {
        Single { bits: MINUS_ONE }
    } else {
        Single { bits: ZERO }
    }
}

/// The movement intent of the four directional keys, before it is normalised
/// and turned into world space: `x` grows to the right, `y` forwards.
pub fn movement_intent(up: bool, left: bool, down: bool, right: bool) -> (intent: Vec2)
    ensures
        intent.x == axis_of(right, left),
        intent.y == axis_of(up, down),
        intent.vanishes() <==> (up == down && left == right),
{
    Vec2 { x: axis_value(right, left), y: axis_value(up, down) }
}

/// Whether an intent has a direction. Only such an intent is normalised: the
/// zero vector has none, and is used as it is.
pub fn has_direction(intent: Vec2) -> (r: bool)
    ensures
        r == !intent.vanishes(),
{
    !intent.is_zero()
}

/// Whether a character at height `y` is in the air. The ground is flat, at
/// height zero: at or below it the character is grounded.
pub open spec fn airborne(y: Single) -> bool {
    (Single { bits: ZERO }).less(y)
}

/// Whether the character at `translation` is in the air.
pub fn is_in_air(translation: &Vec3) -> (r: bool)
    ensures
        r == airborne(translation.y),
{
    translation.y.gt(Single { bits: ZERO })
}

/// How ground friction acts on the walking velocity.
#[derive(Clone, Copy, Debug, PartialEq, Eq, Structural)]
pub enum Friction {
    /// The character is slow enough to be stopped in this tick.
    Stop,
    /// The dynamic and the static term both slow the character down.
    Slow,
}

/// What `ground_friction` returns.
pub open spec fn friction_of(speed: Single) -> Friction {
    if speed.less(Single { bits: LOW_SPEED }) {
        Friction::Stop
    } else {
        Friction::Slow
    }
}

/// The friction that applies to a grounded character walking at `speed`.
pub fn ground_friction(speed: Single) -> (r: Friction)
    ensures
        r == friction_of(speed),
{
    if speed.lt(Single { bits: LOW_SPEED }) {
        Friction::Stop
    } else {
        Friction::Slow
    }
}

/// What `slow` returns. A slow walker is stopped: its velocity is added to
/// itself times minus one. A faster one loses five times its velocity and
/// fifteen in its direction, per second.
pub open spec fn slowed(walking: Vec2, dt: Single) -> Vec2 {
    walking.plus(
        match friction_of(walking.length_of()) {
            Friction::Stop => walking.times(Single { bits: MINUS_ONE }),
            Friction::Slow => walking.times(Single { bits: DYNAMIC_FRICTION }).times(dt).plus(
                walking.normalized().times(Single { bits: STATIC_FRICTION }).times(dt),
            ),
        },
    )
}

/// The walking velocity of a grounded character after friction has acted on
/// it for the time `dt`.
pub fn slow(walking: Vec2, dt: Single) -> (r: Vec2)
    ensures
        r == slowed(walking, dt),
{
    let friction = match ground_friction(walking.length()) {
        Friction::Stop => walking.scale(Single { bits: MINUS_ONE }),
        Friction::Slow => walking.scale(Single { bits: DYNAMIC_FRICTION }).scale(dt).add(
            walking.normalize().scale(Single { bits: STATIC_FRICTION }).scale(dt),
        ),
    };
    walking.add(friction)
}

/// The pieces of the dash falloff curve.
#[derive(Clone, Copy, Debug, PartialEq, Eq, Structural)]
pub enum Falloff {
    /// Full strength: the factor is one.
    Full,
    /// The factor is the square root of `0.9 - t`, times 0.4.
    Root,
    /// The factor is `1 - t`, times 0.4.
    Linear,
    /// The dash is over: the factor is zero.
    Spent,
}

/// The piece of the falloff curve at `t`, three times the seconds since the
/// dash began.
pub open spec fn falloff_of(t: Single) -> Falloff {
    if (Single { bits: ONE }).less(t) {
        Falloff::Spent
    } else if (Single { bits: FALLOFF_ROOT_UNTIL }).less(t) {
        Falloff::Linear
    } else if (Single { bits: FALLOFF_FULL_UNTIL }).less(t) {
        Falloff::Root
    } else {
        Falloff::Full
    }
}

/// The piece of the falloff curve that a dash has reached at `t`.
pub fn dash_falloff(t: Single) -> (r: Falloff)
    ensures
        r == falloff_of(t),
{
    if t.gt(Single { bits: ONE }) {
        Falloff::Spent
    } else if t.gt(Single { bits: FALLOFF_ROOT_UNTIL }) {
        Falloff::Linear
    } else if t.gt(Single { bits: FALLOFF_FULL_UNTIL }) {
        Falloff::Root
    } else {
        Falloff::Full
    }
}

impl Falloff {
    /// The place of the piece along the curve, counted from full strength.
    pub open spec fn stage(self) -> nat {
        match self {
            Falloff::Full => 0,
            Falloff::Root => 1,
            Falloff::Linear => 2,
            Falloff::Spent => 3,
        }
    }
}

/// What `falloff` returns: the strength of a dash at `t`, piece by piece.
pub open spec fn falloff_factor(t: Single) -> Single {
    match falloff_of(t) {
        Falloff::Full => Single { bits: ONE },
        Falloff::Root => t.negated().sum(Single { bits: FALLOFF_ROOT_UNTIL }).root().product(
            Single { bits: FALLOFF_SCALE },
        ),
        Falloff::Linear => t.negated().sum(Single { bits: ONE }).product(
            Single { bits: FALLOFF_SCALE },
        ),
        Falloff::Spent => Single { bits: ZERO },
    }
}

/// The strength of a dash at `t`, three times the seconds since it began:
/// one up to one half, then the root of `0.9 - t` times 0.4 up to 0.9, then
/// `1 - t` times 0.4 up to one, and zero from there on.
pub fn falloff(t: Single) -> (r: Single)
    ensures
        r == falloff_factor(t),
{
    match dash_falloff(t) {
        Falloff::Full => Single { bits: ONE },
        Falloff::Root => t.neg().add(Single { bits: FALLOFF_ROOT_UNTIL }).sqrt().mul(
            Single { bits: FALLOFF_SCALE },
        ),
        Falloff::Linear => t.neg().add(Single { bits: ONE }).mul(Single { bits: FALLOFF_SCALE }),
        Falloff::Spent => Single { bits: ZERO },
    }
}

/// The falloff at its ends: up to one half the factor is one, so at zero
/// and at one half too; at one it has come down to zero, and beyond one it
/// stays zero.
pub proof fn lemma_falloff_ends(t: Single)
    ensures
        t.at_most(Single { bits: FALLOFF_FULL_UNTIL }) ==> falloff_factor(t) == (Single {
            bits: ONE,
        }),
        (Single { bits: ONE }).less(t) ==> falloff_factor(t) == (Single { bits: ZERO }),
        falloff_factor(Single { bits: ZERO }) == (Single { bits: ONE }),
        falloff_factor(Single { bits: FALLOFF_FULL_UNTIL }) == (Single { bits: ONE }),
        falloff_factor(Single { bits: ONE }) == (Single { bits: ZERO }),
{
    let one = Single { bits: ONE };
    lemma_difference_of_equals(one);
    lemma_product_of_zero(Single { bits: ZERO }, Single { bits: FALLOFF_SCALE });
    assert(one.negated().sum(one) == (Single { bits: ZERO }));
}

/// The strength of a dash is a number at every time, also at a time that is
/// none.
pub proof fn lemma_falloff_finite(t: Single)
    ensures
        falloff_factor(t).finite(),
{
    let one = Single { bits: ONE };
    let scale = Single { bits: FALLOFF_SCALE };
    let knee = Single { bits: FALLOFF_ROOT_UNTIL };
    match falloff_of(t) {
        Falloff::Linear => {
            lemma_sum_of_opposites(one, t.negated());
            lemma_product_with_fraction(t.negated().sum(one), scale);
        },
        Falloff::Root => {
            lemma_sum_of_opposites(knee, t.negated());
            lemma_root_finite(t.negated().sum(knee));
            lemma_product_with_fraction(t.negated().sum(knee).root(), scale);
        },
        _ => {},
    }
}

/// The strength of a dash lies between zero and one.
pub proof fn lemma_falloff_bounds(t: Single)
    ensures
        (Single { bits: ZERO }).at_most(falloff_factor(t)),
        falloff_factor(t).at_most(Single { bits: ONE }),
{
    let one = Single { bits: ONE };
    let scale = Single { bits: FALLOFF_SCALE };
    let knee = Single { bits: FALLOFF_ROOT_UNTIL };
    match falloff_of(t) {
        Falloff::Linear => {
            lemma_remainder_ordered(one, t, t);
            let left = t.negated().sum(one);
            lemma_product_with_fraction(left, scale);
            lemma_product_ordered(left, left, scale);
        },
        Falloff::Root => {
            lemma_remainder_ordered(knee, t, t);
            let left = t.negated().sum(knee);
            lemma_root_ordered(left, one);
            lemma_root_of_one();
            lemma_product_with_fraction(left.root(), scale);
            lemma_product_ordered(left.root(), left.root(), scale);
        },
        _ => {},
    }
}

/// On the square root up to 0.88 the factor is at least an eighth of the
/// scale, and on the line it is at most that.
proof fn lemma_falloff_steps_down(s: Single, t: Single)
    requires
        falloff_of(s) == Falloff::Root,
        falloff_of(t) == Falloff::Linear,
        s.at_most(Single { bits: FALLOFF_ABOVE_UNTIL }),
    ensures
        falloff_factor(t).at_most(falloff_factor(s)),
{
    let one = Single { bits: ONE };
    let scale = Single { bits: FALLOFF_SCALE };
    let knee = Single { bits: FALLOFF_ROOT_UNTIL };
    let last = Single { bits: FALLOFF_ABOVE_UNTIL };
    let eighth = Single { bits: EIGHTH };
    let small = Single { bits: SIXTY_FOURTH };
    lemma2_to64();
    lemma_scaled_normal(one, 127, 0);
    lemma_scaled_normal(knee, 126, 0x66_6666);
    lemma_scaled_normal(last, 126, 0x61_47ae);
    lemma_scaled_normal(eighth, 124, 0);
    lemma_scaled_normal(small, 121, 0);
    lemma_pow2_adds(1, 125);
    lemma_pow2_adds(5, 120);
    lemma_pow2_adds(3, 120);
    let p = pow2(120) as int;
    let u_one = units(one.magnitude()) as int;
    let u_knee = units(knee.magnitude()) as int;
    let u_last = units(last.magnitude()) as int;
    let u_eighth = units(eighth.magnitude()) as int;
    let u_small = units(small.magnitude()) as int;
    assert(u_one == 0x80_0000 * 64 * p) by (nonlinear_arith)
        requires
            u_one == 0x80_0000 * pow2(126),
            pow2(126) == 64 * p,
    ;
    assert(u_knee == 0xe6_6666 * 32 * p) by (nonlinear_arith)
        requires
            u_knee == 0xe6_6666 * pow2(125),
            pow2(125) == 32 * p,
    ;
    assert(u_last == 0xe1_47ae * 32 * p) by (nonlinear_arith)
        requires
            u_last == 0xe1_47ae * pow2(125),
            pow2(125) == 32 * p,
    ;
    assert(u_eighth == 0x80_0000 * 8 * p) by (nonlinear_arith)
        requires
            u_eighth == 0x80_0000 * pow2(123),
            pow2(123) == 8 * p,
    ;
    assert(u_small == 0x80_0000 * 1 * p) by (nonlinear_arith)
        requires
            u_small == 0x80_0000 * pow2(120),
            pow2(120) == 1 * p,
    ;
    // The root piece: what is left of 0.9 is a sixty-fourth at least, so its
    // root is an eighth at least.
    lemma_units_ordered(s.magnitude(), last.magnitude());
    lemma_remainder_ordered(knee, s, s);
    let left_s = s.negated().sum(knee);
    let u_s = units(s.magnitude()) as int;
    assert(p > 0) by {
        vstd::arithmetic::power2::lemma_pow2_pos(120);
    }
    assert(u_knee - u_last == 10737408 * p) by (nonlinear_arith)
        requires
            u_knee == 0xe6_6666 * 32 * p,
            u_last == 0xe1_47ae * 32 * p,
    ;
    lemma_rounded_at_least(u_knee - u_s, 1, SIXTY_FOURTH as nat);
    lemma_rounded_rounds(u_knee - u_s, 1);
    lemma_root_ordered(small, left_s);
    lemma_pow2_adds(23, 120);
    lemma_pow2_adds(143, 149);
    lemma_pow2_adds(146, 146);
    lemma_pow2_adds(23, 123);
    lemma_root_of_square(small, eighth);
    lemma_product_ordered(eighth, left_s.root(), scale);
    // The linear piece: what is left of one is an eighth at most.
    lemma_remainder_ordered(one, knee, t);
    let left_t = t.negated().sum(one);
    lemma_rounded_at_most(u_one - u_knee, 1, EIGHTH as nat);
    lemma_rounded_rounds(u_one - u_knee, 1);
    lemma_product_ordered(left_t, eighth, scale);
}

/// The falloff does not increase, but for one step: of two times the later
/// has the factor that is not larger, unless the earlier is on the root
/// piece beyond 0.88 and the later on the linear piece. There it can fail:
/// where the root piece ends the factor has come down to zero, and the
/// linear piece begins above it.
pub proof fn lemma_falloff_falls(s: Single, t: Single)
    requires
        s.at_most(t),
        falloff_of(s) == Falloff::Root && falloff_of(t) == Falloff::Linear ==> s.at_most(
            Single { bits: FALLOFF_ABOVE_UNTIL },
        ),
    ensures
        falloff_factor(t).at_most(falloff_factor(s)),
{
    let one = Single { bits: ONE };
    let scale = Single { bits: FALLOFF_SCALE };
    let knee = Single { bits: FALLOFF_ROOT_UNTIL };
    lemma_falloff_bounds(s);
    lemma_falloff_bounds(t);
    if falloff_of(s) == falloff_of(t) {
        match falloff_of(t) {
            Falloff::Linear => {
                lemma_remainder_ordered(one, s, t);
                let left_s = s.negated().sum(one);
                let left_t = t.negated().sum(one);
                lemma_product_ordered(left_t, left_s, scale);
            },
            Falloff::Root => {
                lemma_remainder_ordered(knee, s, t);
                let left_s = s.negated().sum(knee);
                let left_t = t.negated().sum(knee);
                lemma_root_ordered(left_t, left_s);
                lemma_product_ordered(left_t.root(), left_s.root(), scale);
            },
            _ => {},
        }
    } else if falloff_of(s) == Falloff::Root && falloff_of(t) == Falloff::Linear {
        lemma_falloff_steps_down(s, t);
    }
}

/// A dash never comes back: as `t` grows, the curve only moves on from piece
/// to piece, from full strength towards spent.
pub proof fn lemma_falloff_moves_on(s: Single, t: Single)
    requires
        s.at_most(t),
    ensures
        falloff_of(s).stage() <= falloff_of(t).stage(),
{
}

/// The physics state of one character.
#[derive(Clone, Copy, Debug)]
pub struct Physics {
    pub gravity_func: GravityModel,
    /// Only the vertical component is used: it is what gravity and jumps drive.
    pub velocity: Vec3,
    /// The velocity in the ground plane, damped by friction.
    pub walking_velocity: Vec2,
    /// The velocity that an active dash adds.
    pub dash_velocity: Vec3,
    pub last_jump: Double,
    pub last_dash: Double,
}

impl Default for Physics {
    /// A character at rest under the default gravity, whose last jump lies
    /// far enough in the past for it to jump at once.
    fn default() -> (r: Physics)
        ensures
            r.gravity_func == GravityModel::Constant(Single { bits: DEFAULT_GRAVITY }),
            r.velocity == Vec3::zero(),
            r.walking_velocity == Vec2::zero(),
            r.dash_velocity == Vec3::zero(),
            r.last_jump == (Double { bits: LONG_AGO }),
            r.last_dash == (Double { bits: 0 }),
    {
        let zero = Single { bits: ZERO };
        Physics {
            gravity_func: GravityModel::Constant(Single { bits: DEFAULT_GRAVITY }),
            velocity: Vec3 { x: zero, y: zero, z: zero },
            walking_velocity: Vec2 { x: zero, y: zero },
            dash_velocity: Vec3 { x: zero, y: zero, z: zero },
            last_jump: Double { bits: LONG_AGO },
            last_dash: Double { bits: 0 },
        }
    }
}

/// What a tick is given.
#[derive(Clone, Copy, Debug)]
pub struct TickInput {
    /// The state of the controls.
    pub controls: Controls,
    /// The yaw of the camera.
    pub yaw: Angle,
    /// The clock, in seconds since the start.
    pub now: Double,
    /// The seconds since the tick before.
    pub dt: Single,
}

impl Physics {
    /// Whether a dash starts: the key is held and the cooldown has passed
    /// since the last one.
    pub open spec fn dash_starts(self, profile: PhysicsProperties, held: bool, now: Double) -> bool {
        held && profile.dash_cooldown.at_most(now.difference(self.last_dash))
    }

    /// The pull of gravity on this character at the time `now`.
    pub open spec fn pull_at(self, now: Double) -> Single {
        self.gravity_func.pull_of(
            now.difference(self.last_jump).narrowed(),
            Single { bits: LAUNCH_VELOCITY },
        )
    }

    /// The pull of gravity on this character at the time `now`.
    pub fn gravity_pull(&self, now: Double) -> (r: Single)
        ensures
            r == self.pull_at(now),
    {
        self.gravity_func.pull(now.sub(self.last_jump).to_single(), Single { bits: LAUNCH_VELOCITY })
    }

    /// Starts a dash if one is due. A dash that starts is recorded at `now`;
    /// while the key stays held the next one starts when the cooldown has
    /// passed again.
    pub fn try_dash(&mut self, profile: &PhysicsProperties, held: bool, now: Double) -> (started:
        bool)
        ensures
            started == old(self).dash_starts(*profile, held, now),
            *final(self) == (Physics {
                last_dash: if started {
                    now
                } else {
                    old(self).last_dash
                },
                ..*old(self)
            }),
    {
        if held && now.sub(self.last_dash).ge(profile.dash_cooldown) {
            self.last_dash = now;
            true
        } else {
            false
        }
    }

    /// What `dash_strength` returns: the falloff at three times the seconds
    /// since the last dash.
    pub open spec fn dash_strength_at(self, now: Double) -> Single {
        falloff_factor((Double { bits: DASH_RATE }).product(now.difference(self.last_dash)).narrowed())
    }

    /// The strength of the dash at the time `now`.
    pub fn dash_strength(&self, now: Double) -> (r: Single)
        ensures
            r == self.dash_strength_at(now),
    {
        falloff(Double { bits: DASH_RATE }.mul(now.sub(self.last_dash)).to_single())
    }

    /// What `speed` returns.
    pub open spec fn speed_of(self) -> Single {
        self.walking_velocity.length_of().sum(self.dash_velocity.length_of())
    }

    /// The speed to show: that of walking plus that of the dash.
    pub fn speed(&self) -> (r: Single)
        ensures
            r == self.speed_of(),
    {
        self.walking_velocity.length().add(self.dash_velocity.length())
    }

    /// What `land` leaves of the state and of the translation.
    pub open spec fn landed(self, translation: Vec3, in_air: bool, jump: bool, now: Double) -> (
        Physics,
        Vec3,
    ) {
        if in_air {
            (self, translation)
        } else if jump {
            (
                Physics {
                    velocity: Vec3 { y: Single { bits: JUMP_IMPULSE }, ..self.velocity },
                    last_jump: now,
                    ..self
                },
                Vec3 { y: Single { bits: EPSILON }, ..translation },
            )
        } else {
            (
                Physics { velocity: Vec3 { y: Single { bits: ZERO }, ..self.velocity }, ..self },
                Vec3 { y: Single { bits: ZERO }, ..translation },
            )
        }
    }

    /// Ends a tick. `in_air` says whether the character was in the air when
    /// the tick began, `translation` is where the integration has moved it.
    /// A character that stood on the ground is put back on the ground and
    /// stops falling; if the jump key is pressed it leaves the ground with
    /// the jump impulse, just above height zero, and the jump is recorded at
    /// `now`. A character that was in the air is left as it is.
    pub fn land(&mut self, translation: &mut Vec3, in_air: bool, jump: bool, now: Double)
        ensures
            (*final(self), *final(translation)) == old(self).landed(
                *old(translation),
                in_air,
                jump,
                now,
            ),
    {
        if !in_air {
            translation.y = Single { bits: ZERO };
            self.velocity.y = Single { bits: ZERO };
            if jump {
                self.velocity.y = Single { bits: JUMP_IMPULSE };
                translation.y = Single { bits: EPSILON };
                self.last_jump = now;
            }
        }
    }

    /// The state before landing: velocities and dash time after one tick.
    pub open spec fn advanced(self, translation: Vec3, profile: PhysicsProperties, input: TickInput)
        -> Physics {
        let course = direction_of(input.controls.intent_of(), input.yaw);
        let in_air = airborne(translation.y);
        let drop = self.pull_at(input.now).product(input.dt);
        let walking = if in_air {
            self.walking_velocity
        } else {
            slowed(self.walking_velocity, input.dt)
        };
        let started = self.dash_starts(profile, input.controls.dash.pressed, input.now);
        let dashing = Physics {
            last_dash: if started {
                input.now
            } else {
                self.last_dash
            },
            ..self
        };
        Physics {
            velocity: self.velocity.minus(
                Vec3 { x: Single { bits: ZERO }, y: drop, z: Single { bits: ZERO } },
            ),
            walking_velocity: profile.capped(
                walking.plus(profile.acceleration_of(course, in_air).times(input.dt)),
            ),
            dash_velocity: course.xz3_withy_of(Single { bits: ZERO }).times(
                dashing.dash_strength_at(input.now),
            ).times(Single { bits: DASH_SPEED }),
            ..dashing
        }
    }

    /// Where the velocities of the state carry a character from
    /// `translation` in the time `dt`.
    pub open spec fn carried(self, translation: Vec3, dt: Single) -> Vec3 {
        translation.plus(
            self.velocity.plus(self.walking_velocity.xz3_withy_of(Single { bits: ZERO })).plus(
                self.dash_velocity,
            ).times(dt),
        )
    }

    /// What `tick` leaves of the state and of the translation.
    pub open spec fn ticked(self, translation: Vec3, profile: PhysicsProperties, input: TickInput)
        -> (Physics, Vec3) {
        let next = self.advanced(translation, profile, input);
        next.landed(
            next.carried(translation, input.dt),
            airborne(translation.y),
            input.controls.jump.pressed,
            input.now,
        )
    }

    /// One tick of the simulation: the character at `translation` is moved
    /// by what the controls ask for and by what its state carries on.
    pub fn tick(&mut self, translation: &mut Vec3, profile: &PhysicsProperties, input: &TickInput)
        ensures
            (*final(self), *final(translation)) == old(self).ticked(
                *old(translation),
                *profile,
                *input,
            ),
    {
        let zero = Single { bits: ZERO };
        let course = direction(input.controls.intent(), input.yaw);
        let in_air = is_in_air(translation);
        let acceleration = profile.acceleration(course, in_air);

        let drop = self.gravity_pull(input.now).mul(input.dt);
        self.velocity = self.velocity.sub(Vec3 { x: zero, y: drop, z: zero });

        if !in_air {
            self.walking_velocity = slow(self.walking_velocity, input.dt);
        }
        self.walking_velocity = profile.cap(
            self.walking_velocity.add(acceleration.scale(input.dt)),
        );

        self.try_dash(profile, input.controls.dash.pressed, input.now);
        self.dash_velocity = course.xz3().scale(self.dash_strength(input.now)).scale(
            Single { bits: DASH_SPEED },
        );

        let step = self.velocity.add(self.walking_velocity.xz3()).add(self.dash_velocity).scale(
            input.dt,
        );
        *translation = translation.add(step);

        self.land(translation, in_air, input.controls.jump.pressed, input.now);
    }
}

/// Grounded pinning: a character that is at or below the ground when a tick
/// begins, and does not jump, is at height zero and has no vertical velocity
/// when the tick ends.
pub proof fn lemma_grounded_pinning(
    state: Physics,
    translation: Vec3,
    profile: PhysicsProperties,
    input: TickInput,
)
    requires
        translation.y.at_most(Single { bits: ZERO }),
        !input.controls.jump.pressed,
    ensures
        state.ticked(translation, profile, input).1.y == (Single { bits: ZERO }),
        state.ticked(translation, profile, input).0.velocity.y == (Single { bits: ZERO }),
        state.ticked(translation, profile, input).1.y.scaled() == 0,
        state.ticked(translation, profile, input).0.velocity.y.scaled() == 0,
{
    lemma_scaled_of_zero(23);
}

/// Jump impulse: a grounded character that jumps gets the vertical velocity
/// 15, no more and no less, its last jump is the current clock value, and it
/// is in the air.
pub proof fn lemma_jump_impulse(
    state: Physics,
    translation: Vec3,
    profile: PhysicsProperties,
    input: TickInput,
)
    requires
        !airborne(translation.y),
        input.controls.jump.pressed,
    ensures
        state.ticked(translation, profile, input).0.velocity.y == (Single { bits: JUMP_IMPULSE }),
        state.ticked(translation, profile, input).0.last_jump == input.now,
        (Single { bits: JUMP_IMPULSE }).scaled() == 15 * pow2(149),
        airborne(state.ticked(translation, profile, input).1.y),
{
    lemma_scaled_normal(Single { bits: JUMP_IMPULSE }, 130, 0x70_0000);
    lemma2_to64();
    lemma_pow2_adds(20, 129);
    assert(0xf0_0000 * pow2(129) == 15 * (pow2(20) * pow2(129))) by (nonlinear_arith)
        requires
            pow2(20) == 0x10_0000,
    ;
}

/// The cap leaves alone what is within it, so capping a velocity whose
/// capped length is within the cap a second time changes nothing. For a
/// velocity above the cap the capped length is the cap up to rounding, which
/// can leave it just above: then a second capping rounds once more.
pub proof fn lemma_cap_once_is_enough(profile: PhysicsProperties, walking: Vec2)
    requires
        !profile.movement_speed_ground.less(profile.capped(walking).length_of()),
    ensures
        profile.capped(profile.capped(walking)) == profile.capped(walking),
        !profile.movement_speed_ground.less(walking.length_of()) ==> profile.capped(walking)
            == walking,
{
}

/// Without a direction from the keys, whatever way the camera looks, the
/// character has no direction to go in.
pub proof fn lemma_idle_has_no_direction(intent: Vec2, yaw: Angle)
    requires
        intent.vanishes(),
        yaw.sin.finite(),
        yaw.cos.finite(),
    ensures
        direction_of(intent, yaw).vanishes(),
{
    let theta = yaw.quarter_back_of();
    lemma_product_of_zero(intent.y, theta.cos);
    lemma_product_of_zero(intent.x, theta.sin);
    lemma_product_of_zero(intent.x, theta.cos);
    lemma_product_of_zero(intent.y, theta.sin);
    lemma_sum_with_zero(intent.y.product(theta.cos), intent.x.product(theta.sin).negated());
    lemma_sum_with_zero(intent.x.product(theta.cos), intent.y.product(theta.sin));
}

/// No drift: a zero input vector gives a zero acceleration, and the walking
/// velocity is the same after the acceleration has been added to it.
pub proof fn lemma_idle_adds_no_acceleration(
    controls: Controls,
    yaw: Angle,
    profile: PhysicsProperties,
    in_air: bool,
    dt: Single,
    walking: Vec2,
)
    requires
        controls.intent_of().vanishes(),
        yaw.sin.finite(),
        yaw.cos.finite(),
        profile.valid(),
        dt.finite(),
        walking.finite(),
    ensures
        profile.acceleration_of(direction_of(controls.intent_of(), yaw), in_air).vanishes(),
        walking.plus(
            profile.acceleration_of(direction_of(controls.intent_of(), yaw), in_air).times(dt),
        ).same_values(walking),
{
    let direction = direction_of(controls.intent_of(), yaw);
    lemma_idle_has_no_direction(controls.intent_of(), yaw);
    let speed = if in_air {
        profile.movement_speed_air
    } else {
        profile.movement_speed_ground
    };
    lemma_zero_vector_times(direction, speed);
    lemma_zero_vector_times(
        direction.times(speed),
        profile.movement_acceleration.quotient(profile.movement_speed_ground),
    );
    let acceleration = profile.acceleration_of(direction, in_air);
    lemma_zero_vector_times(acceleration, dt);
    lemma_plus_zero_vector(walking, acceleration.times(dt));
}

/// A character that stands still stays where it is put: after its
/// translation has been overwritten from outside, one tick with no key down
/// leaves it at the same place in the ground plane. Only its height changes,
/// by gravity and by landing.
pub proof fn lemma_teleport_adds_no_drift(
    state: Physics,
    teleported: Vec3,
    profile: PhysicsProperties,
    input: TickInput,
)
    requires
        input.controls.intent_of().vanishes(),
        input.yaw.sin.finite(),
        input.yaw.cos.finite(),
        input.dt.finite(),
        profile.valid(),
        state.walking_velocity.vanishes(),
        state.velocity.x.zero(),
        state.velocity.z.zero(),
        teleported.x.finite(),
        teleported.z.finite(),
    ensures
        state.ticked(teleported, profile, input).1.x.same_value(teleported.x),
        state.ticked(teleported, profile, input).1.z.same_value(teleported.z),
        state.ticked(teleported, profile, input).0.walking_velocity.vanishes(),
{
    let zero = Single { bits: ZERO };
    let dt = input.dt;
    let in_air = airborne(teleported.y);
    let direction = direction_of(input.controls.intent_of(), input.yaw);
    let next = state.advanced(teleported, profile, input);
    lemma_idle_has_no_direction(input.controls.intent_of(), input.yaw);
    // Walking: friction stops what does not move, and nothing is added.
    let walking = if in_air {
        state.walking_velocity
    } else {
        slowed(state.walking_velocity, dt)
    };
    assert(walking.vanishes()) by {
        lemma_zero_vector_length(state.walking_velocity);
        lemma_zero_vector_times(state.walking_velocity, Single { bits: MINUS_ONE });
        lemma_plus_zero_vector(
            state.walking_velocity,
            state.walking_velocity.times(Single { bits: MINUS_ONE }),
        );
    }
    lemma_idle_adds_no_acceleration(input.controls, input.yaw, profile, in_air, dt, walking);
    let pushed = walking.plus(profile.acceleration_of(direction, in_air).times(dt));
    assert(pushed.vanishes());
    lemma_zero_vector_length(pushed);
    assert(next.walking_velocity == pushed);
    // The dash: no direction, no dash.
    let strength = Physics {
        last_dash: next.last_dash,
        ..state
    }.dash_strength_at(input.now);
    lemma_falloff_finite(
        (Double { bits: DASH_RATE }).product(input.now.difference(next.last_dash)).narrowed(),
    );
    let flat = direction.xz3_withy_of(zero);
    lemma_zero_vector_times_3(flat, strength);
    lemma_zero_vector_times_3(flat.times(strength), Single { bits: DASH_SPEED });
    assert(next.dash_velocity.vanishes());
    // The fall: straight down.
    lemma_sum_with_zero(state.velocity.x, zero.negated());
    lemma_sum_with_zero(state.velocity.z, zero.negated());
    assert(next.velocity.x.zero() && next.velocity.z.zero());
    // The step: zero in the ground plane.
    let flat_walk = next.walking_velocity.xz3_withy_of(zero);
    lemma_sum_with_zero(next.velocity.x, flat_walk.x);
    lemma_sum_with_zero(next.velocity.z, flat_walk.z);
    lemma_sum_with_zero(next.velocity.x.sum(flat_walk.x), next.dash_velocity.x);
    lemma_sum_with_zero(next.velocity.z.sum(flat_walk.z), next.dash_velocity.z);
    lemma_product_of_zero(next.velocity.x.sum(flat_walk.x).sum(next.dash_velocity.x), dt);
    lemma_product_of_zero(next.velocity.z.sum(flat_walk.z).sum(next.dash_velocity.z), dt);
    let step = next.velocity.plus(flat_walk).plus(next.dash_velocity).times(dt);
    lemma_sum_with_zero(teleported.x, step.x);
    lemma_sum_with_zero(teleported.z, step.z);
}

} // verus!
