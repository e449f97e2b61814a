use boids::{Vec3, SCALE, rem_euclid_fx};

#[test]
fn zero_and_one() {
    let z = Vec3::zero();
    assert_eq!((z.x, z.y, z.z), (0, 0, 0));
    let o = Vec3::one();
    assert_eq!((o.x, o.y, o.z), (SCALE, SCALE, SCALE));
}

#[test]
fn array_round_trip() {
    let v = Vec3::from_array([1, -2, 3]);
    assert_eq!(v.to_array(), [1, -2, 3]);
}

#[test]
fn add_and_sub_are_exact() {
    let a = Vec3 { x: 1000, y: -2000, z: 3000 };
    let b = Vec3 { x: 10, y: 20, z: -30 };
    let s = a.add(b);
    assert_eq!((s.x, s.y, s.z), (1010, -1980, 2970));
    let d = a.sub(b);
    assert_eq!((d.x, d.y, d.z), (990, -2020, 3030));
}

#[test]
fn mul_scales_by_fixed_point_factor() {
    let v = Vec3 { x: 1500, y: -1500, z: 2000 };
    let r = v.mul(2 * SCALE);
    assert_eq!((r.x, r.y, r.z), (3000, -3000, 4000));
    let h = v.mul(500);
    assert_eq!((h.x, h.y, h.z), (750, -750, 1000));
}

#[test]
fn mul_rounds_toward_negative_infinity() {
    // one fixed-point fraction times one fraction underflows the resolution:
    // the positive product floors to zero, the negative one to minus one
    let p = Vec3 { x: 1, y: 0, z: 0 }.mul(1);
    assert_eq!(p.x, 0);
    let n = Vec3 { x: -1, y: 0, z: 0 }.mul(1);
    assert_eq!(n.x, -1);
}

#[test]
fn div_by_fixed_point_factor() {
    let v = Vec3 { x: 3000, y: -3000, z: 0 };
    let r = v.div(2 * SCALE);
    assert_eq!((r.x, r.y, r.z), (1500, -1500, 0));
}

#[test]
fn dot_product() {
    let a = Vec3 { x: 1000, y: 2000, z: 3000 };
    let b = Vec3 { x: 4000, y: 5000, z: 6000 };
    assert_eq!(a.dot(b), 32 * SCALE);
}

#[test]
fn cross_product_of_axes() {
    let x = Vec3 { x: 1000, y: 0, z: 0 };
    let y = Vec3 { x: 0, y: 1000, z: 0 };
    let r = x.cross(y);
    assert_eq!((r.x, r.y, r.z), (0, 0, 1000));
}

#[test]
fn magnitude_of_a_3_4_5_triangle() {
    let v = Vec3 { x: 3000, y: 4000, z: 0 };
    assert_eq!(v.magnitude_squared(), 25_000);
    assert_eq!(v.magnitude(), 5000);
}

#[test]
fn magnitude_floors_the_root() {
    assert_eq!(Vec3::zero().magnitude(), 0);
    assert_eq!(Vec3 { x: 1, y: 0, z: 0 }.magnitude(), 1);
    assert_eq!(Vec3 { x: 1, y: 1, z: 0 }.magnitude(), 1);
    assert_eq!(Vec3 { x: 2, y: 0, z: 0 }.magnitude(), 2);
}

#[test]
fn normalize_gives_a_unit_vector() {
    let v = Vec3 { x: 3000, y: 4000, z: 0 };
    let n = v.normalize();
    assert_eq!((n.x, n.y, n.z), (600, 800, 0));
    let z = Vec3::zero().normalize();
    assert_eq!((z.x, z.y, z.z), (0, 0, 0));
}

#[test]
fn limit_rescales_only_above_the_cap() {
    let v = Vec3 { x: 3000, y: 4000, z: 0 };
    let capped = v.limit(1000);
    assert_eq!((capped.x, capped.y, capped.z), (600, 800, 0));
    let kept = v.limit(6000);
    assert_eq!((kept.x, kept.y, kept.z), (3000, 4000, 0));
}

#[test]
fn limit_zero_cap_zeroes_any_vector() {
    let v = Vec3 { x: 5, y: 0, z: 0 };
    let r = v.limit(0);
    assert_eq!((r.x, r.y, r.z), (0, 0, 0));
    let z = Vec3::zero().limit(0);
    assert_eq!((z.x, z.y, z.z), (0, 0, 0));
}

#[test]
fn limit_keeps_magnitude_within_the_slack() {
    let v = Vec3 { x: 9000, y: 9000, z: 9000 };
    let r = v.limit(1000);
    assert_eq!((r.x, r.y, r.z), (577, 577, 577));
    let raw = r.x * r.x + r.y * r.y + r.z * r.z;
    assert!(raw <= 1004 * 1004);
}

#[test]
fn distances() {
    let a = Vec3::zero();
    let b = Vec3 { x: 3000, y: 4000, z: 0 };
    assert_eq!(a.distance(b), 5000);
    assert_eq!(a.distance_squared(b), 25_000);
}

#[test]
fn lerp_midpoint() {
    let a = Vec3::zero();
    let b = Vec3 { x: 1000, y: 2000, z: 0 };
    let m = a.lerp(b, 500);
    assert_eq!((m.x, m.y, m.z), (500, 1000, 0));
    let s = a.lerp(b, 0);
    assert_eq!((s.x, s.y, s.z), (0, 0, 0));
    let e = a.lerp(b, 1000);
    assert_eq!((e.x, e.y, e.z), (1000, 2000, 0));
}

#[test]
fn reflect_across_a_plane() {
    let v = Vec3 { x: 1000, y: -1000, z: 0 };
    let n = Vec3 { x: 0, y: 1000, z: 0 };
    let r = v.reflect(n);
    assert_eq!((r.x, r.y, r.z), (1000, 1000, 0));
}

#[test]
fn euclidean_remainder_is_never_negative() {
    assert_eq!(rem_euclid_fx(-300, 1000), 700);
    assert_eq!(rem_euclid_fx(2500, 1000), 500);
    assert_eq!(rem_euclid_fx(0, 1000), 0);
    assert_eq!(rem_euclid_fx(1000, 1000), 0);
}
