use boids::{Boid, BoundaryType, Flock, FlockParams, Vec3, SCALE};

fn corner(v: i64) -> Vec3 {
    Vec3 { x: v, y: v, z: v }
}

#[test]
fn wrap_leaves_interior_points_alone() {
    let pos = Vec3 { x: 500, y: 10_000, z: 0 };
    let r = Flock::wrap_around(pos, corner(0), corner(20_000));
    assert_eq!((r.x, r.y, r.z), (500, 10_000, 0));
}

#[test]
fn wrap_at_max_lands_on_min() {
    let pos = Vec3 { x: 20_000, y: 500, z: 500 };
    let r = Flock::wrap_around(pos, corner(0), corner(20_000));
    assert_eq!((r.x, r.y, r.z), (0, 500, 500));
}

#[test]
fn wrap_below_min_reenters_from_the_top() {
    // min - delta wraps to max - delta
    let pos = Vec3 { x: -300, y: 500, z: 500 };
    let r = Flock::wrap_around(pos, corner(0), corner(20_000));
    assert_eq!((r.x, r.y, r.z), (19_700, 500, 500));
}

#[test]
fn wrap_beyond_max_reenters_from_the_bottom() {
    let pos = Vec3 { x: 20_800, y: 500, z: 500 };
    let r = Flock::wrap_around(pos, corner(0), corner(20_000));
    assert_eq!((r.x, r.y, r.z), (800, 500, 500));
}

#[test]
fn wrap_with_offset_box() {
    let pos = Vec3 { x: -6000, y: 0, z: 0 };
    let r = Flock::wrap_around(pos, corner(-5000), corner(5000));
    assert_eq!(r.x, 4000);
}

#[test]
fn soft_boundary_clamps_each_axis() {
    let pos = Vec3 { x: -500, y: 1500, z: 200 };
    let r = Flock::soft_boundry(pos, corner(0), corner(1000));
    assert_eq!((r.x, r.y, r.z), (0, 1000, 200));
}

#[test]
fn new_flock_holds_the_initial_population_twice() {
    let b = Boid::new(Vec3 { x: 100, y: 200, z: 300 }, Vec3::zero());
    let mut f = Flock::new(vec![b], FlockParams::new());
    assert!(f.active_buffer);
    assert_eq!(f.current_boids().len(), 1);
    assert_eq!(f.current_boids()[0].position.x, 100);
    assert_eq!(f.next_boids().len(), 1);
    assert_eq!(f.next_boids()[0].position.x, 100);
}

#[test]
fn seeding_the_next_buffer_leaves_the_current_one_alone() {
    let b = Boid::new(Vec3 { x: 100, y: 0, z: 0 }, Vec3::zero());
    let mut f = Flock::new(vec![b], FlockParams::new());
    f.next_boids()[0] = Boid::new(Vec3 { x: 999, y: 0, z: 0 }, Vec3::zero());
    assert_eq!(f.current_boids()[0].position.x, 100);
}

// A flock of one coasts in a straight line: no neighbor, no steering
// force, velocity unchanged, position advanced by velocity * dt.
#[test]
fn single_boid_moves_in_a_straight_line() {
    let b = Boid::new(Vec3::zero(), Vec3 { x: 300, y: 400, z: 0 });
    let mut f = Flock::new(vec![b], FlockParams::new());
    f.tick(SCALE, corner(-100_000), corner(100_000));
    let now = &f.current_boids()[0];
    assert_eq!((now.velocity.x, now.velocity.y, now.velocity.z), (300, 400, 0));
    assert_eq!((now.position.x, now.position.y, now.position.z), (300, 400, 0));
    f.tick(SCALE, corner(-100_000), corner(100_000));
    let then = &f.current_boids()[0];
    assert_eq!((then.position.x, then.position.y, then.position.z), (600, 800, 0));
}

#[test]
fn tick_swaps_the_buffers_and_keeps_the_old_state() {
    let b = Boid::new(Vec3::zero(), Vec3 { x: 1000, y: 0, z: 0 });
    let mut f = Flock::new(vec![b], FlockParams::new());
    assert!(f.active_buffer);
    f.tick(SCALE, corner(-100_000), corner(100_000));
    assert!(!f.active_buffer);
    // the now-inactive buffer still holds the pre-tick state
    assert_eq!(f.next_boids()[0].position.x, 0);
    assert_eq!(f.current_boids()[0].position.x, 1000);
}

#[test]
fn tick_wraps_positions_at_the_torus_edge() {
    let b = Boid::new(Vec3 { x: 9800, y: 0, z: 0 }, Vec3 { x: 1000, y: 0, z: 0 });
    let mut f = Flock::new(vec![b], FlockParams::new());
    f.tick(SCALE, corner(0), corner(10_000));
    let now = &f.current_boids()[0];
    assert_eq!(now.position.x, 800);
    assert_eq!(now.velocity.x, 1000);
}

// The clamped boundary pins the position to the wall and leaves the
// (still outward) velocity untouched.
#[test]
fn tick_clamps_positions_at_a_soft_wall() {
    let mut params = FlockParams::new();
    params.boundary_type = BoundaryType::SoftBoundry;
    let b = Boid::new(Vec3 { x: 9800, y: 0, z: 0 }, Vec3 { x: 1000, y: 0, z: 0 });
    let mut f = Flock::new(vec![b], params);
    f.tick(SCALE, corner(0), corner(10_000));
    let now = &f.current_boids()[0];
    assert_eq!((now.position.x, now.position.y, now.position.z), (10_000, 0, 0));
    assert_eq!(now.velocity.x, 1000);
}

// Every agent of a crowded tick ends within the speed cap plus the
// rounding slack.
#[test]
fn tick_bounds_every_velocity() {
    let mut seed: Vec<Boid> = Vec::new();
    for i in 0..8i64 {
        let x = (i % 4) * 700;
        let y = (i / 4) * 700;
        seed.push(Boid::new(
            Vec3 { x, y, z: 0 },
            Vec3 { x: 1000 - x, y: y - 500, z: 0 },
        ));
    }
    let mut f = Flock::new(seed, FlockParams::new());
    for _ in 0..5 {
        f.tick(SCALE, corner(-50_000), corner(50_000));
    }
    for b in f.current_boids() {
        let v = b.velocity;
        let raw = v.x * v.x + v.y * v.y + v.z * v.z;
        assert!(raw <= (SCALE + 4) * (SCALE + 4));
    }
}

// Two symmetric agents get symmetric updates: the per-agent result depends
// only on the snapshot, never on the other agent's already-written slot.
#[test]
fn tick_is_symmetric_for_a_symmetric_pair() {
    let a = Boid::new(Vec3 { x: -250, y: 0, z: 0 }, Vec3::zero());
    let b = Boid::new(Vec3 { x: 250, y: 0, z: 0 }, Vec3::zero());
    let mut f = Flock::new(vec![a, b], FlockParams::new());
    f.tick(SCALE, corner(-100_000), corner(100_000));
    let left = f.current_boids()[0];
    let right = f.current_boids()[1];
    assert_eq!(left.velocity.x, -right.velocity.x);
    assert_eq!(left.velocity.y, right.velocity.y);
    assert!(left.velocity.x < 0 && right.velocity.x > 0);
}
