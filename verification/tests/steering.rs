use boids::{Boid, FlockParams, Vec3, SCALE};

fn unit_params() -> FlockParams {
    // perception radius 10.0, every weight and cap 1.0
    FlockParams::new()
}

fn boid_at(x: i64, y: i64, z: i64) -> Boid {
    Boid::new(Vec3 { x, y, z }, Vec3::zero())
}

#[test]
fn default_params() {
    let p = unit_params();
    assert_eq!(p.perception_radius, 10 * SCALE);
    assert_eq!(p.separation_weight, SCALE);
    assert_eq!(p.alignment_weight, SCALE);
    assert_eq!(p.cohesion_weight, SCALE);
    assert_eq!(p.max_speed, SCALE);
    assert_eq!(p.max_force, SCALE);
    assert!(matches!(p.boundary_type, boids::BoundaryType::WrapAround));
}

#[test]
fn lone_boid_steers_nowhere() {
    let p = unit_params();
    let b = boid_at(0, 0, 0);
    let flock = vec![b];
    let sep = b.separation(&flock, &p);
    let ali = b.alignment(&flock, &p);
    let coh = b.cohesion(&flock, &p);
    assert_eq!((sep.x, sep.y, sep.z), (0, 0, 0));
    assert_eq!((ali.x, ali.y, ali.z), (0, 0, 0));
    assert_eq!((coh.x, coh.y, coh.z), (0, 0, 0));
}

// Two agents one unit apart inside a perception radius of ten, zero
// velocities, all weights one: separation repels with magnitude one
// (the inverse-square of the unit distance), cohesion attracts with
// magnitude one (the single neighbor's position is the centroid), and
// alignment contributes nothing, so the net force cancels exactly.
#[test]
fn pair_at_unit_distance() {
    let p = unit_params();
    let a = boid_at(0, 0, 0);
    let b = boid_at(SCALE, 0, 0);
    let flock = vec![a, b];

    let sep = a.separation(&flock, &p);
    assert_eq!((sep.x, sep.y, sep.z), (-SCALE, 0, 0));

    let ali = a.alignment(&flock, &p);
    assert_eq!((ali.x, ali.y, ali.z), (0, 0, 0));

    let coh = a.cohesion(&flock, &p);
    assert_eq!((coh.x, coh.y, coh.z), (SCALE, 0, 0));

    let mut updated = a;
    updated.update(&flock, &p, SCALE);
    assert_eq!((updated.velocity.x, updated.velocity.y, updated.velocity.z), (0, 0, 0));
    assert_eq!((updated.position.x, updated.position.y, updated.position.z), (0, 0, 0));
}

// At half a unit of distance the inverse-square repulsion (magnitude
// 1 / d = 2) beats the cohesion pull (magnitude d = 0.5), so the pair
// diverges.
#[test]
fn pair_at_half_unit_distance_diverges() {
    let p = unit_params();
    let a = boid_at(0, 0, 0);
    let b = boid_at(SCALE / 2, 0, 0);
    let flock = vec![a, b];

    let sep = a.separation(&flock, &p);
    assert_eq!((sep.x, sep.y, sep.z), (-2 * SCALE, 0, 0));

    let coh = a.cohesion(&flock, &p);
    assert_eq!((coh.x, coh.y, coh.z), (SCALE / 2, 0, 0));

    let mut updated = a;
    updated.update(&flock, &p, SCALE);
    // net steer -1.5 capped at max_force 1.0, integrated over one second
    assert_eq!((updated.velocity.x, updated.velocity.y, updated.velocity.z), (-1000, 0, 0));
    assert!(updated.position.x < 0);
}

#[test]
fn neighbors_outside_the_radius_are_ignored() {
    let p = unit_params();
    let a = boid_at(0, 0, 0);
    let far = boid_at(11 * SCALE, 0, 0);
    let flock = vec![a, far];
    let sep = a.separation(&flock, &p);
    let coh = a.cohesion(&flock, &p);
    assert_eq!((sep.x, sep.y, sep.z), (0, 0, 0));
    assert_eq!((coh.x, coh.y, coh.z), (0, 0, 0));
}

#[test]
fn alignment_averages_neighbor_velocities() {
    let p = unit_params();
    let me = Boid::new(Vec3::zero(), Vec3 { x: 100, y: 0, z: 0 });
    let n1 = Boid::new(Vec3 { x: SCALE, y: 0, z: 0 }, Vec3 { x: 500, y: 0, z: 0 });
    let n2 = Boid::new(Vec3 { x: -SCALE, y: 0, z: 0 }, Vec3 { x: 900, y: 0, z: 0 });
    let flock = vec![me, n1, n2];
    let ali = me.alignment(&flock, &p);
    // average velocity (700, 0, 0) minus own velocity (100, 0, 0)
    assert_eq!((ali.x, ali.y, ali.z), (600, 0, 0));
}

// A zero force cap freezes the velocity no matter what the neighbors do.
#[test]
fn zero_max_force_freezes_velocity() {
    let mut p = unit_params();
    p.max_force = 0;
    let mut me = Boid::new(Vec3::zero(), Vec3 { x: 500, y: 0, z: 0 });
    let neighbor = Boid::new(Vec3 { x: SCALE, y: 0, z: 0 }, Vec3 { x: 900, y: 0, z: 0 });
    let flock = vec![me, neighbor];
    me.update(&flock, &p, SCALE);
    assert_eq!((me.velocity.x, me.velocity.y, me.velocity.z), (500, 0, 0));
    assert_eq!((me.position.x, me.position.y, me.position.z), (500, 0, 0));
}

// Whatever the configuration does, the post-update speed never exceeds the
// cap by more than the rounding slack.
#[test]
fn update_caps_the_speed() {
    let p = unit_params();
    let mut me = Boid::new(Vec3::zero(), Vec3 { x: 800, y: 600, z: 0 });
    let n1 = Boid::new(Vec3 { x: 10, y: 0, z: 0 }, Vec3 { x: 1000, y: 0, z: 0 });
    let n2 = Boid::new(Vec3 { x: 0, y: 10, z: 0 }, Vec3 { x: 0, y: 1000, z: 0 });
    let flock = vec![me, n1, n2];
    me.update(&flock, &p, SCALE);
    let v = me.velocity;
    let raw = v.x * v.x + v.y * v.y + v.z * v.z;
    assert!(raw <= (SCALE + 4) * (SCALE + 4));
}
