//! The 3-component vector of the simulation, over fixed-point scalars.
//!
//! An exec `Vec3` holds three `i64` components, each a fixed-point number
//! with `SCALE` fractional units per whole unit. Its mathematical model is
//! `V3`, a triple of unbounded integers, and every operation's contract is
//! an exact statement over that model, division being Euclidean (floor).

use vstd::prelude::*;
use crate::SCALE;
use crate::scalars::div_euclid_fx;
use crate::scalars::div_euclid_wide;
use crate::scalars::is_sqrt_floor;
use crate::scalars::sqrt_floor;
use crate::scalars::lemma_abs_mul_bound;
use crate::scalars::lemma_div_mult_bound;
use crate::scalars::lemma_div_shrinks;

verus! {

/// Largest component magnitude the squared-magnitude style operations
/// accept: products of two such components still fit the wide intermediates.
pub const COMP_MAX: i64 = 10_000_000_000_000_000;

/// Largest component magnitude for which a fixed-point squared magnitude
/// still fits one word.
pub const MAG_SQ_MAX: i64 = 50_000_000_000;

/// Mathematical model of a vector: three unbounded integers, each counting
/// `1 / SCALE` fractions of a simulation unit.
pub ghost struct V3 {
    pub x: int,
    pub y: int,
    pub z: int,
}

/// The value fits a signed 64-bit word.
pub open spec fn fits(x: int) -> bool {
    i64::MIN <= x <= i64::MAX
}

/// Every component of `v` lies in `[-b, b]`.
pub open spec fn in_range(v: V3, b: int) -> bool {
    &&& -b <= v.x <= b
    &&& -b <= v.y <= b
    &&& -b <= v.z <= b
}

pub open spec fn v3_zero() -> V3 {
    V3 { x: 0, y: 0, z: 0 }
}

pub open spec fn v3_add(a: V3, b: V3) -> V3 {
    V3 { x: a.x + b.x, y: a.y + b.y, z: a.z + b.z }
}

pub open spec fn v3_sub(a: V3, b: V3) -> V3 {
    V3 { x: a.x - b.x, y: a.y - b.y, z: a.z - b.z }
}

/// Multiplication by the fixed-point scalar `k`.
pub open spec fn v3_scale(a: V3, k: int) -> V3 {
    V3 {
        x: a.x * k / (SCALE as int),
        y: a.y * k / (SCALE as int),
        z: a.z * k / (SCALE as int),
    }
}

/// Division by the positive fixed-point scalar `k`.
pub open spec fn v3_div(a: V3, k: int) -> V3 {
    V3 {
        x: a.x * (SCALE as int) / k,
        y: a.y * (SCALE as int) / k,
        z: a.z * (SCALE as int) / k,
    }
}

/// Componentwise average over a positive integer count (not fixed-point).
pub open spec fn v3_avg(a: V3, c: int) -> V3 {
    V3 { x: a.x / c, y: a.y / c, z: a.z / c }
}

/// The raw squared magnitude: `SCALE * SCALE` times the real squared length.
pub open spec fn v3_raw_sq(a: V3) -> int {
    a.x * a.x + a.y * a.y + a.z * a.z
}

/// The fixed-point squared magnitude.
pub open spec fn v3_mag_sq(a: V3) -> int {
    v3_raw_sq(a) / (SCALE as int)
}

/// The fixed-point dot product.
pub open spec fn v3_dot(a: V3, b: V3) -> int {
    (a.x * b.x + a.y * b.y + a.z * b.z) / (SCALE as int)
}

/// The fixed-point cross product.
pub open spec fn v3_cross(a: V3, b: V3) -> V3 {
    V3 {
        x: (a.y * b.z - a.z * b.y) / (SCALE as int),
        y: (a.z * b.x - a.x * b.z) / (SCALE as int),
        z: (a.x * b.y - a.y * b.x) / (SCALE as int),
    }
}

/// An immutable 3-component fixed-point vector.
#[derive(Clone, Copy, PartialEq, Eq, Structural, Debug)]
pub struct Vec3 {
    pub x: i64,
    pub y: i64,
    pub z: i64,
}

impl View for Vec3 {
    type V = V3;

    open spec fn view(&self) -> V3 {
        V3 { x: self.x as int, y: self.y as int, z: self.z as int }
    }
}

impl Vec3 {
    /// The zero vector.
    pub fn zero() -> (r: Vec3)
        ensures
            r@ == v3_zero(),
    {
        Vec3 { x: 0, y: 0, z: 0 }
    }

    /// The all-ones vector (one whole unit on every axis).
    pub fn one() -> (r: Vec3)
        ensures
            r@ == (V3 { x: SCALE as int, y: SCALE as int, z: SCALE as int }),
    {
        Vec3 { x: SCALE, y: SCALE, z: SCALE }
    }

    pub fn from_array(array: [i64; 3]) -> (r: Vec3)
        ensures
            r.x == array@[0] && r.y == array@[1] && r.z == array@[2],
    {
        Vec3 { x: array[0], y: array[1], z: array[2] }
    }

    pub fn to_array(&self) -> (r: [i64; 3])
        ensures
            r@[0] == self.x && r@[1] == self.y && r@[2] == self.z,
    {
        [self.x, self.y, self.z]
    }

    /// Componentwise (exact) addition.
    pub fn add(self, other: Vec3) -> (r: Vec3)
        requires
            fits(self@.x + other@.x),
            fits(self@.y + other@.y),
            fits(self@.z + other@.z),
        ensures
            r@ == v3_add(self@, other@),
    {
        Vec3 { x: self.x + other.x, y: self.y + other.y, z: self.z + other.z }
    }

    /// Componentwise (exact) subtraction.
    pub fn sub(self, other: Vec3) -> (r: Vec3)
        requires
            fits(self@.x - other@.x),
            fits(self@.y - other@.y),
            fits(self@.z - other@.z),
        ensures
            r@ == v3_sub(self@, other@),
    {
        Vec3 { x: self.x - other.x, y: self.y - other.y, z: self.z - other.z }
    }

    /// Multiplication by the fixed-point scalar `k`.
    pub fn mul(self, k: i64) -> (r: Vec3)
        requires
            fits(self@.x * k),
            fits(self@.y * k),
            fits(self@.z * k),
        ensures
            r@ == v3_scale(self@, k as int),
    {
        Vec3 {
            x: div_euclid_fx(self.x * k, SCALE),
            y: div_euclid_fx(self.y * k, SCALE),
            z: div_euclid_fx(self.z * k, SCALE),
        }
    }

    /// Division by the positive fixed-point scalar `k`.
    pub fn div(self, k: i64) -> (r: Vec3)
        requires
            k > 0,
            fits(self@.x * SCALE),
            fits(self@.y * SCALE),
            fits(self@.z * SCALE),
        ensures
            r@ == v3_div(self@, k as int),
    {
        Vec3 {
            x: div_euclid_fx(self.x * SCALE, k),
            y: div_euclid_fx(self.y * SCALE, k),
            z: div_euclid_fx(self.z * SCALE, k),
        }
    }

    /// The raw squared magnitude (`SCALE * SCALE` times the real one), wide.
    pub(crate) fn raw_mag_sq(&self) -> (r: i128)
        requires
            in_range(self@, COMP_MAX as int),
        ensures
            r == v3_raw_sq(self@),
            r >= 0,
    {
        proof {
            lemma_abs_mul_bound(self@.x, self@.x, COMP_MAX as int, COMP_MAX as int);
            lemma_abs_mul_bound(self@.y, self@.y, COMP_MAX as int, COMP_MAX as int);
            lemma_abs_mul_bound(self@.z, self@.z, COMP_MAX as int, COMP_MAX as int);
            assert(self@.x * self@.x >= 0) by (nonlinear_arith);
            assert(self@.y * self@.y >= 0) by (nonlinear_arith);
            assert(self@.z * self@.z >= 0) by (nonlinear_arith);
        }
        let px: i128 = (self.x as i128) * (self.x as i128);
        let py: i128 = (self.y as i128) * (self.y as i128);
        let pz: i128 = (self.z as i128) * (self.z as i128);
        px + py + pz
    }

    /// The fixed-point dot product.
    pub fn dot(&self, other: Vec3) -> (r: i64)
        requires
            in_range(self@, COMP_MAX as int),
            in_range(other@, COMP_MAX as int),
            fits(v3_dot(self@, other@)),
        ensures
            r == v3_dot(self@, other@),
    {
        proof {
            lemma_abs_mul_bound(self@.x, other@.x, COMP_MAX as int, COMP_MAX as int);
            lemma_abs_mul_bound(self@.y, other@.y, COMP_MAX as int, COMP_MAX as int);
            lemma_abs_mul_bound(self@.z, other@.z, COMP_MAX as int, COMP_MAX as int);
        }
        let px: i128 = (self.x as i128) * (other.x as i128);
        let py: i128 = (self.y as i128) * (other.y as i128);
        let pz: i128 = (self.z as i128) * (other.z as i128);
        let q: i128 = div_euclid_wide(px + py + pz, SCALE as i128);
        q as i64
    }

    /// The fixed-point squared magnitude.
    pub fn magnitude_squared(&self) -> (r: i64)
        requires
            in_range(self@, MAG_SQ_MAX as int),
        ensures
            r == v3_mag_sq(self@),
            r >= 0,
    {
        proof {
            lemma_abs_mul_bound(self@.x, self@.x, MAG_SQ_MAX as int, MAG_SQ_MAX as int);
            lemma_abs_mul_bound(self@.y, self@.y, MAG_SQ_MAX as int, MAG_SQ_MAX as int);
            lemma_abs_mul_bound(self@.z, self@.z, MAG_SQ_MAX as int, MAG_SQ_MAX as int);
            assert(self@.x * self@.x >= 0) by (nonlinear_arith);
            assert(self@.y * self@.y >= 0) by (nonlinear_arith);
            assert(self@.z * self@.z >= 0) by (nonlinear_arith);
            lemma_div_mult_bound(
                self@.x * self@.x + self@.y * self@.y + self@.z * self@.z,
                SCALE as int,
                7_500_000_000_000_000_000int,
            );
            lemma_div_shrinks(v3_raw_sq(self@), SCALE as int);
        }
        let px: i128 = (self.x as i128) * (self.x as i128);
        let py: i128 = (self.y as i128) * (self.y as i128);
        let pz: i128 = (self.z as i128) * (self.z as i128);
        let q: i128 = div_euclid_wide(px + py + pz, SCALE as i128);
        q as i64
    }

    /// The fixed-point cross product.
    pub fn cross(&self, other: Vec3) -> (r: Vec3)
        requires
            in_range(self@, COMP_MAX as int),
            in_range(other@, COMP_MAX as int),
            fits(v3_cross(self@, other@).x),
            fits(v3_cross(self@, other@).y),
            fits(v3_cross(self@, other@).z),
        ensures
            r@ == v3_cross(self@, other@),
    {
        proof {
            lemma_abs_mul_bound(self@.y, other@.z, COMP_MAX as int, COMP_MAX as int);
            lemma_abs_mul_bound(self@.z, other@.y, COMP_MAX as int, COMP_MAX as int);
            lemma_abs_mul_bound(self@.z, other@.x, COMP_MAX as int, COMP_MAX as int);
            lemma_abs_mul_bound(self@.x, other@.z, COMP_MAX as int, COMP_MAX as int);
            lemma_abs_mul_bound(self@.x, other@.y, COMP_MAX as int, COMP_MAX as int);
            lemma_abs_mul_bound(self@.y, other@.x, COMP_MAX as int, COMP_MAX as int);
        }
        let cx: i128 = (self.y as i128) * (other.z as i128) - (self.z as i128) * (other.y as i128);
        let cy: i128 = (self.z as i128) * (other.x as i128) - (self.x as i128) * (other.z as i128);
        let cz: i128 = (self.x as i128) * (other.y as i128) - (self.y as i128) * (other.x as i128);
        Vec3 {
            x: div_euclid_wide(cx, SCALE as i128) as i64,
            y: div_euclid_wide(cy, SCALE as i128) as i64,
            z: div_euclid_wide(cz, SCALE as i128) as i64,
        }
    }
}

/// Scaling of `a` by the ratio `k / m`, componentwise floor.
pub open spec fn v3_scale_to(a: V3, k: int, m: int) -> V3 {
    V3 { x: a.x * k / m, y: a.y * k / m, z: a.z * k / m }
}

/// Cap of the magnitude at `max`, keeping the direction: the identity when
/// the raw squared magnitude is at most `max * max`, otherwise the vector
/// rescaled by `max` over its magnitude.
pub open spec fn v3_limit(a: V3, max: int) -> V3 {
    if v3_raw_sq(a) <= max * max {
        a
    } else {
        v3_scale_to(a, max, sqrt_floor(v3_raw_sq(a)))
    }
}

/// The unit vector of `a`'s direction (zero for the zero vector).
pub open spec fn v3_normalize(a: V3) -> V3 {
    if v3_raw_sq(a) == 0 {
        v3_zero()
    } else {
        v3_scale_to(a, SCALE as int, sqrt_floor(v3_raw_sq(a)))
    }
}

/// Linear interpolation from `a` (at `t == 0`) to `b` (at `t == SCALE`).
pub open spec fn v3_lerp(a: V3, b: V3, t: int) -> V3 {
    v3_add(v3_scale(a, SCALE as int - t), v3_scale(b, t))
}

/// Reflection of `a` about the plane with (unit) normal `n`.
pub open spec fn v3_reflect(a: V3, n: V3) -> V3 {
    v3_sub(a, v3_scale(n, 2 * v3_dot(a, n)))
}

/// Bounds for a fixed-point scaling: with `v`'s components within `bv` and
/// the scalar within `bk`, the products fit below `bv * bk` and the scaled
/// vector's components within `bv * bk / SCALE + 1`.
pub proof fn lemma_scale_range(v: V3, k: int, bv: int, bk: int)
    requires
        in_range(v, bv),
        -bk <= k <= bk,
        0 <= bv,
        0 <= bk,
    ensures
        -(bv * bk) <= v.x * k <= bv * bk,
        -(bv * bk) <= v.y * k <= bv * bk,
        -(bv * bk) <= v.z * k <= bv * bk,
        in_range(v3_scale(v, k), bv * bk / (SCALE as int) + 1),
{
    lemma_abs_mul_bound(v.x, k, bv, bk);
    lemma_abs_mul_bound(v.y, k, bv, bk);
    lemma_abs_mul_bound(v.z, k, bv, bk);
    let m = bv * bk / (SCALE as int) + 1;
    vstd::arithmetic::div_mod::lemma_fundamental_div_mod(bv * bk, SCALE as int);
    assert(bv * bk < m * (SCALE as int)) by (nonlinear_arith)
        requires
            bv * bk == (SCALE as int) * (bv * bk / (SCALE as int))
                + (bv * bk) % (SCALE as int),
            0 <= (bv * bk) % (SCALE as int) < (SCALE as int),
            m == bv * bk / (SCALE as int) + 1;
    lemma_div_mult_bound(v.x * k, SCALE as int, m);
    lemma_div_mult_bound(v.y * k, SCALE as int, m);
    lemma_div_mult_bound(v.z * k, SCALE as int, m);
}

/// A component of a vector of magnitude `m`, scaled by `k / m`, stays in
/// `[-k, k]`.
proof fn lemma_scaled_component(c: int, k: int, m: int)
    requires
        1 <= m,
        0 <= k,
        -m <= c <= m,
    ensures
        -k <= c * k / m <= k,
{
    vstd::arithmetic::mul::lemma_mul_inequality(c, m, k);
    vstd::arithmetic::mul::lemma_mul_inequality(-m, c, k);
    vstd::arithmetic::div_mod::lemma_div_is_ordered(c * k, m * k, m);
    vstd::arithmetic::div_mod::lemma_div_is_ordered((-m) * k, c * k, m);
    vstd::arithmetic::div_mod::lemma_div_multiples_vanish(k, m);
    vstd::arithmetic::div_mod::lemma_div_multiples_vanish(-k, m);
    assert(m * k == k * m && (-m) * k == m * (-k)) by (nonlinear_arith);
}

/// Each component of a vector is bounded by its integer magnitude.
proof fn lemma_component_le_mag(a: V3, m: int)
    requires
        is_sqrt_floor(v3_raw_sq(a), m),
    ensures
        -m <= a.x <= m,
        -m <= a.y <= m,
        -m <= a.z <= m,
{
    assert(a.x * a.x >= 0 && a.y * a.y >= 0 && a.z * a.z >= 0) by (nonlinear_arith);
    assert(-m <= a.x <= m) by (nonlinear_arith)
        requires a.x * a.x < (m + 1) * (m + 1), m >= 0;
    assert(-m <= a.y <= m) by (nonlinear_arith)
        requires a.y * a.y < (m + 1) * (m + 1), m >= 0;
    assert(-m <= a.z <= m) by (nonlinear_arith)
        requires a.z * a.z < (m + 1) * (m + 1), m >= 0;
}

/// The key boundedness fact behind `limit`: rescaling a vector of integer
/// magnitude `m > max` by `max / m` leaves its raw squared magnitude within
/// `(max + 4) * (max + 4)` (the slack covers the floor of each component).
proof fn lemma_limit_scaled_mag(a: V3, k: int, m: int)
    requires
        0 <= k,
        is_sqrt_floor(v3_raw_sq(a), m),
        v3_raw_sq(a) > k * k,
    ensures
        1 <= m,
        k <= m,
        v3_raw_sq(v3_scale_to(a, k, m)) <= (k + 4) * (k + 4),
{
    let raw = v3_raw_sq(a);
    assert(k * k >= 0) by (nonlinear_arith);
    if m == 0 {
        assert(raw < 1) by (nonlinear_arith)
            requires raw < (m + 1) * (m + 1), m == 0;
        assert(false);
    }
    assert(k <= m) by (nonlinear_arith)
        requires k * k < raw, raw < (m + 1) * (m + 1), 0 <= k, 0 <= m;
    lemma_component_le_mag(a, m);
    let acx = if a.x >= 0 { a.x } else { -a.x };
    let acy = if a.y >= 0 { a.y } else { -a.y };
    let acz = if a.z >= 0 { a.z } else { -a.z };
    let qx = a.x * k / m;
    let qy = a.y * k / m;
    let qz = a.z * k / m;
    vstd::arithmetic::div_mod::lemma_fundamental_div_mod(a.x * k, m);
    vstd::arithmetic::div_mod::lemma_fundamental_div_mod(a.y * k, m);
    vstd::arithmetic::div_mod::lemma_fundamental_div_mod(a.z * k, m);
    let rx = (a.x * k) % m;
    let ry = (a.y * k) % m;
    let rz = (a.z * k) % m;
    assert((m * qx) * (m * qx) <= k * k * (a.x * a.x) + 2 * (k * (m * acx)) + m * m)
        by (nonlinear_arith)
        requires
            a.x * k == m * qx + rx, 0 <= rx < m, 0 <= k, 0 <= acx,
            -acx <= a.x <= acx;
    assert((m * qy) * (m * qy) <= k * k * (a.y * a.y) + 2 * (k * (m * acy)) + m * m)
        by (nonlinear_arith)
        requires
            a.y * k == m * qy + ry, 0 <= ry < m, 0 <= k, 0 <= acy,
            -acy <= a.y <= acy;
    assert((m * qz) * (m * qz) <= k * k * (a.z * a.z) + 2 * (k * (m * acz)) + m * m)
        by (nonlinear_arith)
        requires
            a.z * k == m * qz + rz, 0 <= rz < m, 0 <= k, 0 <= acz,
            -acz <= a.z <= acz;
    assert(raw <= m * m + 2 * m) by (nonlinear_arith)
        requires raw < (m + 1) * (m + 1);
    assert(k * k * (a.x * a.x) + k * k * (a.y * a.y) + k * k * (a.z * a.z)
        <= k * k * (m * m + 2 * m)) by (nonlinear_arith)
        requires a.x * a.x + a.y * a.y + a.z * a.z <= m * m + 2 * m, 0 <= k;
    assert(k * (m * acx) <= k * (m * m)) by (nonlinear_arith)
        requires acx <= m, 0 <= k, 1 <= m;
    assert(k * (m * acy) <= k * (m * m)) by (nonlinear_arith)
        requires acy <= m, 0 <= k, 1 <= m;
    assert(k * (m * acz) <= k * (m * m)) by (nonlinear_arith)
        requires acz <= m, 0 <= k, 1 <= m;
    assert(2 * (k * (m * acx)) + 2 * (k * (m * acy)) + 2 * (k * (m * acz))
        <= 6 * (k * (m * m)));
    assert((m * qx) * (m * qx) + (m * qy) * (m * qy) + (m * qz) * (m * qz)
        <= k * k * (m * m + 2 * m) + 6 * (k * (m * m)) + 3 * (m * m));
    let bb = (k + 4) * (k + 4);
    assert(k * k * (m * m + 2 * m) + 6 * (k * (m * m)) + 3 * (m * m) <= (m * m) * bb)
        by (nonlinear_arith)
        requires 0 <= k <= m, 1 <= m, bb == (k + 4) * (k + 4);
    assert(qx * qx + qy * qy + qz * qz <= bb) by (nonlinear_arith)
        requires
            (m * qx) * (m * qx) + (m * qy) * (m * qy) + (m * qz) * (m * qz) <= (m * m) * bb,
            1 <= m;
}

/// Boundedness law of the cap: for any vector and any cap `k >= 0`, every
/// component of `v3_limit(a, k)` lies in `[-k, k]` and its raw squared
/// magnitude is at most `(k + 4) * (k + 4)` — the magnitude exceeds the cap
/// by at most four fixed-point fractions of a unit, the slack the floored
/// rescaling can introduce.
pub proof fn lemma_limit_bounds(a: V3, k: int)
    requires
        0 <= k,
    ensures
        in_range(v3_limit(a, k), k),
        v3_raw_sq(v3_limit(a, k)) <= (k + 4) * (k + 4),
{
    let raw = v3_raw_sq(a);
    assert(a.x * a.x >= 0 && a.y * a.y >= 0 && a.z * a.z >= 0) by (nonlinear_arith);
    if raw <= k * k {
        crate::scalars::lemma_le_sq(a.x, k);
        crate::scalars::lemma_le_sq(a.y, k);
        crate::scalars::lemma_le_sq(a.z, k);
        assert(k * k <= (k + 4) * (k + 4)) by (nonlinear_arith)
            requires k >= 0;
    } else {
        crate::scalars::lemma_sqrt_floor_bounds(raw);
        let m = sqrt_floor(raw);
        assert(is_sqrt_floor(raw, m));
        lemma_limit_scaled_mag(a, k, m);
        lemma_component_le_mag(a, m);
        lemma_scaled_component(a.x, k, m);
        lemma_scaled_component(a.y, k, m);
        lemma_scaled_component(a.z, k, m);
    }
}

impl Vec3 {
    /// The integer magnitude: the floor of the real magnitude, in
    /// fixed-point units.
    pub fn magnitude(&self) -> (r: i64)
        requires
            in_range(self@, COMP_MAX as int),
        ensures
            r == sqrt_floor(v3_raw_sq(self@)),
            r >= 0,
            (r as int) * (r as int) <= v3_raw_sq(self@),
            v3_raw_sq(self@) < (r as int + 1) * (r as int + 1),
    {
        let raw: i128 = self.raw_mag_sq();
        let m64: u64 = crate::scalars::int_sqrt(raw as u128);
        proof {
            lemma_abs_mul_bound(self@.x, self@.x, COMP_MAX as int, COMP_MAX as int);
            lemma_abs_mul_bound(self@.y, self@.y, COMP_MAX as int, COMP_MAX as int);
            lemma_abs_mul_bound(self@.z, self@.z, COMP_MAX as int, COMP_MAX as int);
            assert(m64 as int <= 20_000_000_000_000_000int) by (nonlinear_arith)
                requires
                    (m64 as int) * (m64 as int) <= v3_raw_sq(self@),
                    v3_raw_sq(self@) <= 300_000_000_000_000_000_000_000_000_000_000int,
                    0 <= m64 as int;
        }
        m64 as i64
    }

    /// The unit vector of this vector's direction; the zero vector stays
    /// zero instead of dividing by zero.
    pub fn normalize(&self) -> (r: Vec3)
        requires
            in_range(self@, 1_000_000_000_000_000),
        ensures
            r@ == v3_normalize(self@),
    {
        let mag: i64 = self.magnitude();
        if mag == 0 {
            proof {
                assert(v3_raw_sq(self@) < 1) by (nonlinear_arith)
                    requires
                        v3_raw_sq(self@) < (mag as int + 1) * (mag as int + 1),
                        mag as int == 0;
                assert(v3_raw_sq(self@) >= 0) by (nonlinear_arith);
            }
            Vec3::zero()
        } else {
            proof {
                if v3_raw_sq(self@) == 0 {
                    assert(is_sqrt_floor(0, 0)) by (nonlinear_arith);
                    crate::scalars::lemma_sqrt_floor_unique(0, 0);
                    assert(false);
                }
                lemma_abs_mul_bound(self@.x, SCALE as int, 1_000_000_000_000_000, SCALE as int);
                lemma_abs_mul_bound(self@.y, SCALE as int, 1_000_000_000_000_000, SCALE as int);
                lemma_abs_mul_bound(self@.z, SCALE as int, 1_000_000_000_000_000, SCALE as int);
            }
            Vec3 {
                x: div_euclid_fx(self.x * SCALE, mag),
                y: div_euclid_fx(self.y * SCALE, mag),
                z: div_euclid_fx(self.z * SCALE, mag),
            }
        }
    }

    /// Cap of the magnitude at `max`, keeping the direction. The result's
    /// components stay within `[-max, max]` and its raw squared magnitude
    /// within `(max + 4) * (max + 4)`.
    pub fn limit(&self, max: i64) -> (r: Vec3)
        requires
            0 <= max <= 1_000_000_000,
            in_range(self@, COMP_MAX as int),
        ensures
            r@ == v3_limit(self@, max as int),
            in_range(r@, max as int),
            v3_raw_sq(r@) <= (max as int + 4) * (max as int + 4),
    {
        let raw: i128 = self.raw_mag_sq();
        proof {
            lemma_abs_mul_bound(max as int, max as int, 1_000_000_000, 1_000_000_000);
        }
        let kk: i128 = (max as i128) * (max as i128);
        if raw > kk {
            let m64: u64 = crate::scalars::int_sqrt(raw as u128);
            proof {
                assert(is_sqrt_floor(v3_raw_sq(self@), m64 as int));
                crate::scalars::lemma_sqrt_floor_unique(v3_raw_sq(self@), m64 as int);
                lemma_limit_scaled_mag(self@, max as int, m64 as int);
                lemma_component_le_mag(self@, m64 as int);
                lemma_scaled_component(self@.x, max as int, m64 as int);
                lemma_scaled_component(self@.y, max as int, m64 as int);
                lemma_scaled_component(self@.z, max as int, m64 as int);
                lemma_abs_mul_bound(self@.x, max as int, COMP_MAX as int, 1_000_000_000);
                lemma_abs_mul_bound(self@.y, max as int, COMP_MAX as int, 1_000_000_000);
                lemma_abs_mul_bound(self@.z, max as int, COMP_MAX as int, 1_000_000_000);
            }
            let m: i128 = m64 as i128;
            let qx: i128 = div_euclid_wide((self.x as i128) * (max as i128), m);
            let qy: i128 = div_euclid_wide((self.y as i128) * (max as i128), m);
            let qz: i128 = div_euclid_wide((self.z as i128) * (max as i128), m);
            Vec3 { x: qx as i64, y: qy as i64, z: qz as i64 }
        } else {
            proof {
                assert(self@.x * self@.x >= 0 && self@.y * self@.y >= 0
                    && self@.z * self@.z >= 0) by (nonlinear_arith);
                crate::scalars::lemma_le_sq(self@.x, max as int);
                crate::scalars::lemma_le_sq(self@.y, max as int);
                crate::scalars::lemma_le_sq(self@.z, max as int);
                assert((max as int) * (max as int)
                    <= (max as int + 4) * (max as int + 4)) by (nonlinear_arith)
                    requires max as int >= 0;
            }
            *self
        }
    }

    /// The integer distance between two points, in fixed-point units.
    pub fn distance(&self, other: Vec3) -> (r: i64)
        requires
            in_range(self@, 5_000_000_000_000_000),
            in_range(other@, 5_000_000_000_000_000),
        ensures
            r == sqrt_floor(v3_raw_sq(v3_sub(self@, other@))),
            r >= 0,
    {
        let diff: Vec3 = (*self).sub(other);
        diff.magnitude()
    }

    /// The fixed-point squared distance between two points.
    pub fn distance_squared(&self, other: Vec3) -> (r: i64)
        requires
            in_range(self@, 25_000_000_000),
            in_range(other@, 25_000_000_000),
        ensures
            r == v3_mag_sq(v3_sub(self@, other@)),
            r >= 0,
    {
        let diff: Vec3 = (*self).sub(other);
        diff.magnitude_squared()
    }

    /// Linear interpolation from `self` (at `t == 0`) to `other`
    /// (at `t == SCALE`).
    pub fn lerp(&self, other: Vec3, t: i64) -> (r: Vec3)
        requires
            0 <= t <= SCALE,
            in_range(self@, 1_000_000_000_000_000),
            in_range(other@, 1_000_000_000_000_000),
        ensures
            r@ == v3_lerp(self@, other@, t as int),
    {
        proof {
            lemma_abs_mul_bound(self@.x, SCALE - t, 1_000_000_000_000_000, SCALE as int);
            lemma_abs_mul_bound(self@.y, SCALE - t, 1_000_000_000_000_000, SCALE as int);
            lemma_abs_mul_bound(self@.z, SCALE - t, 1_000_000_000_000_000, SCALE as int);
            lemma_abs_mul_bound(other@.x, t as int, 1_000_000_000_000_000, SCALE as int);
            lemma_abs_mul_bound(other@.y, t as int, 1_000_000_000_000_000, SCALE as int);
            lemma_abs_mul_bound(other@.z, t as int, 1_000_000_000_000_000, SCALE as int);
            lemma_div_mult_bound(self@.x * (SCALE - t), SCALE as int, 1_000_000_000_000_000);
            lemma_div_mult_bound(self@.y * (SCALE - t), SCALE as int, 1_000_000_000_000_000);
            lemma_div_mult_bound(self@.z * (SCALE - t), SCALE as int, 1_000_000_000_000_000);
            lemma_div_mult_bound(other@.x * (t as int), SCALE as int, 1_000_000_000_000_000);
            lemma_div_mult_bound(other@.y * (t as int), SCALE as int, 1_000_000_000_000_000);
            lemma_div_mult_bound(other@.z * (t as int), SCALE as int, 1_000_000_000_000_000);
        }
        let a: Vec3 = (*self).mul(SCALE - t);
        let b: Vec3 = other.mul(t);
        a.add(b)
    }

    /// Reflection about the plane with normal `normal`, which is expected
    /// to be of (fixed-point) unit length or close to it.
    pub fn reflect(&self, normal: Vec3) -> (r: Vec3)
        requires
            in_range(self@, 1_000_000_000),
            in_range(normal@, 2 * SCALE),
        ensures
            r@ == v3_reflect(self@, normal@),
    {
        proof {
            lemma_abs_mul_bound(self@.x, normal@.x, 1_000_000_000, 2 * SCALE as int);
            lemma_abs_mul_bound(self@.y, normal@.y, 1_000_000_000, 2 * SCALE as int);
            lemma_abs_mul_bound(self@.z, normal@.z, 1_000_000_000, 2 * SCALE as int);
            lemma_div_mult_bound(
                self@.x * normal@.x + self@.y * normal@.y + self@.z * normal@.z,
                SCALE as int,
                6_000_000_000,
            );
        }
        let d: i64 = self.dot(normal);
        let k: i64 = 2 * d;
        proof {
            lemma_abs_mul_bound(normal@.x, k as int, 2 * SCALE as int, 12_000_000_000);
            lemma_abs_mul_bound(normal@.y, k as int, 2 * SCALE as int, 12_000_000_000);
            lemma_abs_mul_bound(normal@.z, k as int, 2 * SCALE as int, 12_000_000_000);
            lemma_div_mult_bound(normal@.x * (k as int), SCALE as int, 24_000_000_000);
            lemma_div_mult_bound(normal@.y * (k as int), SCALE as int, 24_000_000_000);
            lemma_div_mult_bound(normal@.z * (k as int), SCALE as int, 24_000_000_000);
        }
        let s: Vec3 = normal.mul(k);
        (*self).sub(s)
    }
}

} // verus!
