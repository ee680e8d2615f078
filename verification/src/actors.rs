//! What else moves in the world: enemies that wander, and projectiles that
//! fly until their time is up or they hit.
use crate::single::{Single, ZERO};
use crate::vector::{Angle, Vec3};
use vstd::prelude::*;

verus! {

/// The bits of 20, the speed of an enemy.
pub const ENEMY_SPEED: u32 = 0x41a0_0000;

/// The bits of 100, the speed of a projectile.
pub const PROJECTILE_SPEED: u32 = 0x42c8_0000;

/// The bits of 5, the seconds that a projectile lives.
pub const PROJECTILE_LIFE: u32 = 0x40a0_0000;

/// The bits of 4: nearer than this to an enemy, a projectile hits it.
pub const HIT_DISTANCE: u32 = 0x4080_0000;

/// The bits of 2, the height above the character at which a projectile
/// starts.
pub const LAUNCH_HEIGHT: u32 = 0x4000_0000;

/// An enemy: the angle it faces, and how fast that angle turns.
#[derive(Clone, Copy, Debug)]
pub struct Enemy {
    pub facing: Single,
    pub facing_vel: Single,
}

impl Default for Enemy {
    /// An enemy that faces along angle zero and does not turn.
    fn default() -> (r: Enemy)
        ensures
            r == (Enemy { facing: Single { bits: ZERO }, facing_vel: Single { bits: ZERO } }),
    {
        Enemy { facing: Single { bits: ZERO }, facing_vel: Single { bits: ZERO } }
    }
}

impl Enemy {
    /// What `wander` leaves of the enemy.
    pub open spec fn wandered(self, dt: Single, nudge: Single) -> Enemy {
        let one = Single { bits: crate::single::ONE };
        Enemy {
            facing: self.facing.sum(one.product(dt).product(self.facing_vel)),
            facing_vel: self.facing_vel.sum(one.product(dt).product(nudge)),
        }
    }

    /// Turns the enemy for the time `dt` at the rate it has, and then
    /// changes that rate by `nudge` per second. The nudge is for the caller
    /// to draw: between minus one and one, by chance.
    pub fn wander(&mut self, dt: Single, nudge: Single)
        ensures
            *final(self) == old(self).wandered(dt, nudge),
    {
        let one = Single { bits: crate::single::ONE };
        self.facing = self.facing.add(one.mul(dt).mul(self.facing_vel));
        self.facing_vel = self.facing_vel.add(one.mul(dt).mul(nudge));
    }

    /// What `step` returns.
    pub open spec fn stepped(translation: Vec3, facing: Angle, dt: Single) -> Vec3 {
        translation.plus(
            (Vec3 { x: facing.sin, y: Single { bits: ZERO }, z: facing.cos }).times(dt).times(
                Single { bits: ENEMY_SPEED },
            ),
        )
    }

    /// Where an enemy at `translation` is after the time `dt`, walking the
    /// way it faces.
    pub fn step(translation: Vec3, facing: Angle, dt: Single) -> (r: Vec3)
        ensures
            r == Enemy::stepped(translation, facing, dt),
    {
        translation.add(
            Vec3 { x: facing.sin, y: Single { bits: ZERO }, z: facing.cos }.scale(dt).scale(
                Single { bits: ENEMY_SPEED },
            ),
        )
    }
}

/// A projectile: its velocity, and the seconds it has left.
#[derive(Clone, Copy, Debug)]
pub struct Projectile {
    pub velocity: Vec3,
    pub life: Single,
}

impl Projectile {
    /// What `launch` returns.
    pub open spec fn launched(yaw: Angle) -> Projectile {
        Projectile {
            velocity: (Vec3 {
                x: yaw.sin.negated().negated(),
                y: (Single { bits: ZERO }).negated(),
                z: yaw.cos.negated(),
            }).times(Single { bits: PROJECTILE_SPEED }),
            life: Single { bits: PROJECTILE_LIFE },
        }
    }

    /// A projectile shot the way the camera looks.
    pub fn launch(yaw: Angle) -> (r: Projectile)
        ensures
            r == Projectile::launched(yaw),
    {
        Projectile {
            velocity: Vec3 { x: yaw.sin.neg().neg(), y: Single { bits: ZERO }.neg(), z: yaw.cos.neg() }
                .scale(Single { bits: PROJECTILE_SPEED }),
            life: Single { bits: PROJECTILE_LIFE },
        }
    }

    /// Where a projectile starts that is shot from `translation`.
    pub fn muzzle(translation: Vec3) -> (r: Vec3)
        ensures
            r == translation.plus(
                (Vec3 {
                    x: Single { bits: ZERO },
                    y: Single { bits: crate::single::ONE },
                    z: Single { bits: ZERO },
                }).times(Single { bits: LAUNCH_HEIGHT }),
            ),
    {
        translation.add(
            Vec3 {
                x: Single { bits: ZERO },
                y: Single { bits: crate::single::ONE },
                z: Single { bits: ZERO },
            }.scale(Single { bits: LAUNCH_HEIGHT }),
        )
    }

    /// What `fly` leaves of the projectile and of its translation.
    pub open spec fn flown(self, translation: Vec3, dt: Single) -> (Projectile, Vec3) {
        (
            Projectile { life: self.life.difference(dt), ..self },
            translation.plus(self.velocity.times(dt)),
        )
    }

    /// Moves the projectile for the time `dt` and takes that time off its
    /// life. Says whether its life is over.
    pub fn fly(&mut self, translation: &mut Vec3, dt: Single) -> (over: bool)
        ensures
            (*final(self), *final(translation)) == old(self).flown(*old(translation), dt),
            over == final(self).life.at_most(Single { bits: ZERO }),
    {
        *translation = translation.add(self.velocity.scale(dt));
        self.life = self.life.sub(dt);
        self.life.le(Single { bits: ZERO })
    }

    /// Whether a projectile at `translation` hits an enemy at `enemy`: the
    /// two are less than the hit distance apart.
    pub fn hits(translation: Vec3, enemy: Vec3) -> (r: bool)
        ensures
            r == enemy.minus(translation).length_of().less(Single { bits: HIT_DISTANCE }),
    {
        enemy.sub(translation).length().lt(Single { bits: HIT_DISTANCE })
    }
}

} // verus!
