use boids::scalars::{div_euclid_fx, int_sqrt};
use boids::{Boid, Flock, FlockParams, Vec3, SCALE};

#[test]
fn integer_square_roots() {
    assert_eq!(int_sqrt(0), 0);
    assert_eq!(int_sqrt(1), 1);
    assert_eq!(int_sqrt(2), 1);
    assert_eq!(int_sqrt(3), 1);
    assert_eq!(int_sqrt(4), 2);
    assert_eq!(int_sqrt(25_000_000), 5000);
    assert_eq!(int_sqrt(1_000_000_000_000_000_000), 1_000_000_000);
    assert_eq!(int_sqrt(999_999_999_999_999_999), 999_999_999);
}

#[test]
fn euclidean_division_floors() {
    assert_eq!(div_euclid_fx(7, 2), 3);
    assert_eq!(div_euclid_fx(-7, 2), -4);
    assert_eq!(div_euclid_fx(-6, 2), -3);
    assert_eq!(div_euclid_fx(0, 5), 0);
}

// Parameters may change between ticks and take effect on the next one.
#[test]
fn parameter_changes_take_effect_on_the_next_tick() {
    let b = Boid::new(Vec3::zero(), Vec3 { x: 1000, y: 0, z: 0 });
    let mut f = Flock::new(vec![b], FlockParams::new());
    let lo = Vec3 { x: -50_000, y: -50_000, z: -50_000 };
    let hi = Vec3 { x: 50_000, y: 50_000, z: 50_000 };
    f.tick(SCALE, lo, hi);
    assert_eq!(f.current_boids()[0].velocity.x, 1000);
    // halving the speed cap rescales the velocity on the following tick
    f.params.max_speed = 500;
    f.tick(SCALE, lo, hi);
    assert_eq!(f.current_boids()[0].velocity.x, 500);
}
