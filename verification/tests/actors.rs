use character_controller::actors::{
    Enemy, Projectile, ENEMY_SPEED, HIT_DISTANCE, LAUNCH_HEIGHT, PROJECTILE_LIFE,
    PROJECTILE_SPEED,
};
use character_controller::single::Single;
use character_controller::vector::{Angle, Vec3};

fn single(x: f32) -> Single {
    Single::from_bits(x.to_bits())
}

fn value(s: Single) -> f32 {
    f32::from_bits(s.to_bits())
}

fn vec3(x: f32, y: f32, z: f32) -> Vec3 {
    Vec3::new(single(x), single(y), single(z))
}

fn values(v: Vec3) -> (f32, f32, f32) {
    (value(v.x), value(v.y), value(v.z))
}

fn angle(theta: f32) -> Angle {
    let (sin, cos) = theta.sin_cos();
    Angle { sin: single(sin), cos: single(cos) }
}

#[test]
fn actor_constants_are_the_values_they_name() {
    assert_eq!(ENEMY_SPEED, 20.0f32.to_bits());
    assert_eq!(PROJECTILE_SPEED, 100.0f32.to_bits());
    assert_eq!(PROJECTILE_LIFE, 5.0f32.to_bits());
    assert_eq!(HIT_DISTANCE, 4.0f32.to_bits());
    assert_eq!(LAUNCH_HEIGHT, 2.0f32.to_bits());
}

#[test]
fn enemy_wanders() {
    let mut enemy = Enemy::default();
    assert_eq!((enemy.facing.to_bits(), enemy.facing_vel.to_bits()), (0, 0));
    let (mut facing, mut facing_vel) = (0.0f32, 0.0f32);
    let mut at = vec3(1.0, 0.0, -2.0);
    let mut want = (1.0f32, 0.0f32, -2.0f32);
    for (dt, nudge) in [(0.016f32, 0.5f32), (0.02, -0.9), (0.016, 0.99), (0.5, -0.25)] {
        enemy.wander(single(dt), single(nudge));
        facing += 1.0 * dt * facing_vel;
        facing_vel += 1.0 * dt * nudge;
        assert_eq!(value(enemy.facing), facing);
        assert_eq!(value(enemy.facing_vel), facing_vel);

        at = Enemy::step(at, angle(facing), single(dt));
        let (x, z) = facing.sin_cos();
        want = (want.0 + x * dt * 20.0, want.1 + 0.0 * dt * 20.0, want.2 + z * dt * 20.0);
        assert_eq!(values(at), want);
    }
}

#[test]
fn projectile_flies_the_way_the_camera_looks() {
    let shot = Projectile::launch(angle(0.0));
    assert_eq!(values(shot.velocity), (0.0, 0.0, -100.0));
    assert_eq!(value(shot.life), 5.0);
    let yaw = 0.7f32;
    let shot = Projectile::launch(angle(yaw));
    let (sin, cos) = yaw.sin_cos();
    assert_eq!(values(shot.velocity), (sin * 100.0, -0.0 * 100.0, -cos * 100.0));
    assert_eq!(values(Projectile::muzzle(vec3(3.0, 0.5, -1.0))), (3.0, 2.5, -1.0));
}

#[test]
fn projectile_lives_five_seconds() {
    let mut shot = Projectile::launch(angle(0.0));
    let mut at = vec3(0.0, 2.0, 0.0);
    let (mut z, mut life) = (0.0f32, 5.0f32);
    let dt = 0.25f32;
    let mut ticks = 0;
    loop {
        let over = shot.fly(&mut at, single(dt));
        z += dt * -100.0;
        life -= dt;
        ticks += 1;
        assert_eq!(values(at), (0.0, 2.0, z));
        assert_eq!(value(shot.life), life);
        assert_eq!(over, life <= 0.0);
        if over {
            break;
        }
    }
    assert_eq!(ticks, 20);
    assert_eq!(value(at.z), -500.0);
}

#[test]
fn projectile_hits_what_is_near() {
    let enemy = vec3(10.0, 0.0, 10.0);
    assert!(Projectile::hits(vec3(10.0, 0.0, 10.0), enemy));
    assert!(Projectile::hits(vec3(10.0, 3.9, 10.0), enemy));
    assert!(!Projectile::hits(vec3(10.0, 4.0, 10.0), enemy));
    assert!(Projectile::hits(vec3(12.0, 2.0, 12.0), enemy));
    assert!(!Projectile::hits(vec3(13.0, 2.0, 12.0), enemy));
    assert!(!Projectile::hits(vec3(f32::NAN, 0.0, 10.0), enemy));
    for (x, y, z) in [(7.1f32, 1.9f32, 12.2f32), (12.3, -2.3, 8.1), (6.5, 0.0, 8.0)] {
        let d = ((10.0 - x) * (10.0 - x) + (0.0 - y) * (0.0 - y) + (10.0 - z) * (10.0 - z)).sqrt();
        assert_eq!(Projectile::hits(vec3(x, y, z), enemy), d < 4.0);
    }
}
