//! A single agent and its steering rules: separation, alignment, cohesion,
//! and the per-tick update that integrates the weighted steering force.

use vstd::prelude::*;
use crate::SCALE;
use crate::vec3::{
    Vec3, V3, v3_add, v3_sub, v3_scale, v3_avg, v3_raw_sq, v3_zero, v3_limit,
    in_range, lemma_scale_range,
};
use crate::flock_params::{FlockParams, params_wf, PARAM_MAX};
use crate::scalars::{
    div_euclid_wide, lemma_abs_mul_bound, lemma_div_mult_bound, lemma_div_scale_cancel,
};

verus! {

/// Largest coordinate magnitude of a boid position the engine accepts;
/// the boundary policies keep positions inside it across ticks.
pub const POS_MAX: i64 = 1_000_000_000;

/// Largest velocity component the engine accepts; the speed cap keeps the
/// engine's own output well inside it.
pub const VEL_MAX: i64 = 2_000_000_000;

/// Position components stay inside this bound immediately after an
/// integration step, before the boundary policy runs.
pub const POS_STEP_MAX: i64 = 2_000_000_000_000_000;

/// Largest population the engine accepts.
pub const FLOCK_MAX: usize = 1_000_000;

/// Largest time step (fixed-point seconds).
pub const DT_MAX: i64 = 1_000_000_000;

/// One swarm member: its kinematic state.
#[derive(Clone, Copy, PartialEq, Eq, Structural, Debug)]
pub struct Boid {
    pub position: Vec3,
    pub velocity: Vec3,
}

/// A boid whose state the engine's arithmetic accepts.
pub open spec fn boid_in_range(b: Boid) -> bool {
    in_range(b.position@, POS_MAX as int) && in_range(b.velocity@, VEL_MAX as int)
}

/// Every boid of the sequence is acceptable.
pub open spec fn all_in_range(bs: Seq<Boid>) -> bool {
    forall|i: int| 0 <= i < bs.len() ==> boid_in_range(#[trigger] bs[i])
}

/// The shared neighbor predicate of the three steering rules: a neighbor is
/// seen when the raw squared distance is strictly positive (a boid never
/// sees itself or an exactly coincident agent) and strictly below the square
/// of the perception radius.
pub open spec fn sees(me: Boid, b: Boid, p: FlockParams) -> bool {
    let d = v3_raw_sq(v3_sub(me.position@, b.position@));
    0 < d && d < (p.perception_radius as int) * (p.perception_radius as int)
}

/// Inverse-square repulsion from a neighbor at offset `d`: the fixed-point
/// rendering of `d / |d|^2`, which grows as the neighbor gets closer.
pub open spec fn v3_inv_sq(d: V3) -> V3 {
    let raw = v3_raw_sq(d);
    V3 {
        x: d.x * (SCALE as int) * (SCALE as int) / raw,
        y: d.y * (SCALE as int) * (SCALE as int) / raw,
        z: d.z * (SCALE as int) * (SCALE as int) / raw,
    }
}

/// Sum of the inverse-square repulsions from every seen neighbor.
pub open spec fn sep_sum(me: Boid, others: Seq<Boid>, p: FlockParams) -> V3
    decreases others.len(),
{
    if others.len() == 0 {
        v3_zero()
    } else {
        let prev = sep_sum(me, others.drop_last(), p);
        if sees(me, others.last(), p) {
            v3_add(prev, v3_inv_sq(v3_sub(me.position@, others.last().position@)))
        } else {
            prev
        }
    }
}

/// Sum of the velocities of every seen neighbor.
pub open spec fn vel_sum(me: Boid, others: Seq<Boid>, p: FlockParams) -> V3
    decreases others.len(),
{
    if others.len() == 0 {
        v3_zero()
    } else {
        let prev = vel_sum(me, others.drop_last(), p);
        if sees(me, others.last(), p) {
            v3_add(prev, others.last().velocity@)
        } else {
            prev
        }
    }
}

/// Sum of the positions of every seen neighbor.
pub open spec fn pos_sum(me: Boid, others: Seq<Boid>, p: FlockParams) -> V3
    decreases others.len(),
{
    if others.len() == 0 {
        v3_zero()
    } else {
        let prev = pos_sum(me, others.drop_last(), p);
        if sees(me, others.last(), p) {
            v3_add(prev, others.last().position@)
        } else {
            prev
        }
    }
}

/// How many neighbors are seen.
pub open spec fn seen_count(me: Boid, others: Seq<Boid>, p: FlockParams) -> int
    decreases others.len(),
{
    if others.len() == 0 {
        0
    } else {
        seen_count(me, others.drop_last(), p)
            + if sees(me, others.last(), p) { 1int } else { 0int }
    }
}

/// The separation steer: the average inverse-square repulsion, or the zero
/// vector when no neighbor is seen.
pub open spec fn spec_separation(me: Boid, others: Seq<Boid>, p: FlockParams) -> V3 {
    let c = seen_count(me, others, p);
    if c > 0 {
        v3_avg(sep_sum(me, others, p), c)
    } else {
        sep_sum(me, others, p)
    }
}

/// The alignment steer: the average seen velocity minus the boid's own, or
/// the zero vector when no neighbor is seen.
pub open spec fn spec_alignment(me: Boid, others: Seq<Boid>, p: FlockParams) -> V3 {
    let c = seen_count(me, others, p);
    if c > 0 {
        v3_sub(v3_avg(vel_sum(me, others, p), c), me.velocity@)
    } else {
        v3_zero()
    }
}

/// The cohesion steer: the offset from the boid to the seen centroid, or
/// the zero vector when no neighbor is seen.
pub open spec fn spec_cohesion(me: Boid, others: Seq<Boid>, p: FlockParams) -> V3 {
    let c = seen_count(me, others, p);
    if c > 0 {
        v3_sub(v3_avg(pos_sum(me, others, p), c), me.position@)
    } else {
        v3_zero()
    }
}

/// The three steers, each scaled by its configured weight, summed.
pub open spec fn spec_weighted_steer(me: Boid, others: Seq<Boid>, p: FlockParams) -> V3 {
    v3_add(
        v3_add(
            v3_scale(spec_separation(me, others, p), p.separation_weight as int),
            v3_scale(spec_alignment(me, others, p), p.alignment_weight as int),
        ),
        v3_scale(spec_cohesion(me, others, p), p.cohesion_weight as int),
    )
}

/// The steering force: the weighted steer with its magnitude capped at
/// `max_force`.
pub open spec fn spec_force(me: Boid, others: Seq<Boid>, p: FlockParams) -> V3 {
    v3_limit(spec_weighted_steer(me, others, p), p.max_force as int)
}

/// The velocity after one update: the old velocity plus `force * dt`,
/// capped at `max_speed`.
pub open spec fn spec_velocity_after(me: Boid, others: Seq<Boid>, p: FlockParams, dt: int) -> V3 {
    v3_limit(v3_add(me.velocity@, v3_scale(spec_force(me, others, p), dt)), p.max_speed as int)
}

/// The position after one update: the old position plus the new velocity
/// times `dt` (before any boundary policy).
pub open spec fn spec_position_after(me: Boid, others: Seq<Boid>, p: FlockParams, dt: int) -> V3 {
    v3_add(me.position@, v3_scale(spec_velocity_after(me, others, p, dt), dt))
}

/// One inverse-square repulsion term; each component of the result stays
/// within one squared scale unit.
fn inv_sq_term(diff: Vec3, raw: i128) -> (r: Vec3)
    requires
        raw == v3_raw_sq(diff@),
        raw > 0,
        in_range(diff@, 2 * POS_MAX as int),
    ensures
        r@ == v3_inv_sq(diff@),
        in_range(r@, (SCALE * SCALE) as int),
{
    proof {
        assert(diff@.x * diff@.x >= 0 && diff@.y * diff@.y >= 0 && diff@.z * diff@.z >= 0)
            by (nonlinear_arith);
        lemma_inv_sq_comp(diff@.x, raw as int);
        lemma_inv_sq_comp(diff@.y, raw as int);
        lemma_inv_sq_comp(diff@.z, raw as int);
        lemma_abs_mul_bound(diff@.x, (SCALE * SCALE) as int, 2 * POS_MAX as int,
            (SCALE * SCALE) as int);
        lemma_abs_mul_bound(diff@.y, (SCALE * SCALE) as int, 2 * POS_MAX as int,
            (SCALE * SCALE) as int);
        lemma_abs_mul_bound(diff@.z, (SCALE * SCALE) as int, 2 * POS_MAX as int,
            (SCALE * SCALE) as int);
    }
    let s2: i128 = (SCALE * SCALE) as i128;
    Vec3 {
        x: div_euclid_wide((diff.x as i128) * s2, raw) as i64,
        y: div_euclid_wide((diff.y as i128) * s2, raw) as i64,
        z: div_euclid_wide((diff.z as i128) * s2, raw) as i64,
    }
}

/// The two facts a steering loop needs of its running bound: a count below
/// the cap keeps the accumulator below `cap * b`, and one more summand of
/// magnitude `b` raises the bound by exactly `b`.
proof fn lemma_count_bound_step(c: int, cap: int, b: int)
    requires
        0 <= c <= cap,
        0 <= b,
    ensures
        c * b <= cap * b,
        (c + 1) * b == c * b + b,
{
    vstd::arithmetic::mul::lemma_mul_inequality(c, cap, b);
    assert((c + 1) * b == c * b + b) by (nonlinear_arith);
}

/// One component of an inverse-square term is bounded by the squared scale:
/// the component never exceeds the raw squared magnitude it is divided by.
proof fn lemma_inv_sq_comp(c: int, raw: int)
    requires
        raw > 0,
        c * c <= raw,
    ensures
        -((SCALE * SCALE) as int) <= c * (SCALE as int) * (SCALE as int) / raw
            <= (SCALE * SCALE) as int,
{
    let s2 = (SCALE * SCALE) as int;
    assert(c <= c * c && -(c * c) <= c) by (nonlinear_arith);
    assert(c * (SCALE as int) * (SCALE as int) == c * s2) by (nonlinear_arith)
        requires s2 == (SCALE as int) * (SCALE as int);
    vstd::arithmetic::mul::lemma_mul_inequality(c, raw, s2);
    vstd::arithmetic::mul::lemma_mul_inequality(-raw, c, s2);
    lemma_div_mult_bound(c * s2, raw, s2);
}

impl Boid {
    pub fn new(position: Vec3, velocity: Vec3) -> (r: Boid)
        ensures
            r.position == position,
            r.velocity == velocity,
    {
        Boid { position, velocity }
    }

    /// The separation steer against the given snapshot: the average
    /// inverse-square repulsion from every seen neighbor.
    pub fn separation(&self, other: &Vec<Boid>, params: &FlockParams) -> (r: Vec3)
        requires
            params_wf(*params),
            boid_in_range(*self),
            all_in_range(other@),
            other@.len() <= FLOCK_MAX as int,
        ensures
            r@ == spec_separation(*self, other@, *params),
            in_range(r@, (SCALE * SCALE) as int),
    {
        let mut steer: Vec3 = Vec3::zero();
        let mut count: usize = 0;
        let mut i: usize = 0;
        proof {
            assert(other@.subrange(0, 0) =~= Seq::<Boid>::empty());
        }
        while i < other.len()
            invariant
                i <= other@.len(),
                other@.len() <= FLOCK_MAX as int,
                params_wf(*params),
                boid_in_range(*self),
                all_in_range(other@),
                count <= i,
                count as int == seen_count(*self, other@.subrange(0, i as int), *params),
                steer@ == sep_sum(*self, other@.subrange(0, i as int), *params),
                in_range(steer@, count as int * ((SCALE * SCALE) as int)),
            decreases other@.len() - i,
        {
            let b: Boid = other[i];
            proof {
                assert(boid_in_range(other@[i as int]));
                lemma_abs_mul_bound(params.perception_radius as int,
                    params.perception_radius as int, PARAM_MAX as int, PARAM_MAX as int);
                lemma_count_bound_step(count as int, FLOCK_MAX as int, (SCALE * SCALE) as int);
            }
            let diff: Vec3 = self.position.sub(b.position);
            let raw: i128 = diff.raw_mag_sq();
            let pr2: i128 = (params.perception_radius as i128)
                * (params.perception_radius as i128);
            if raw > 0 && raw < pr2 {
                let term: Vec3 = inv_sq_term(diff, raw);
                steer = steer.add(term);
                count = count + 1;
            }
            proof {
                assert(other@.subrange(0, i as int + 1).drop_last()
                    =~= other@.subrange(0, i as int));
                assert(other@.subrange(0, i as int + 1).last() == other@[i as int]);
            }
            i = i + 1;
        }
        proof {
            assert(other@.subrange(0, other@.len() as int) =~= other@);
        }
        if count > 0 {
            let c: i64 = count as i64;
            proof {
                lemma_div_scale_cancel(steer@.x, c as int, SCALE as int);
                lemma_div_scale_cancel(steer@.y, c as int, SCALE as int);
                lemma_div_scale_cancel(steer@.z, c as int, SCALE as int);
                lemma_div_mult_bound(steer@.x, c as int, (SCALE * SCALE) as int);
                lemma_div_mult_bound(steer@.y, c as int, (SCALE * SCALE) as int);
                lemma_div_mult_bound(steer@.z, c as int, (SCALE * SCALE) as int);
            }
            steer = steer.div(c * SCALE);
        }
        steer
    }

    /// The alignment steer against the given snapshot: the average seen
    /// velocity minus the boid's own.
    pub fn alignment(&self, other: &Vec<Boid>, params: &FlockParams) -> (r: Vec3)
        requires
            params_wf(*params),
            boid_in_range(*self),
            all_in_range(other@),
            other@.len() <= FLOCK_MAX as int,
        ensures
            r@ == spec_alignment(*self, other@, *params),
            in_range(r@, 2 * VEL_MAX as int),
    {
        let mut avg_velocity: Vec3 = Vec3::zero();
        let mut count: usize = 0;
        let mut steer: Vec3 = Vec3::zero();
        let mut i: usize = 0;
        proof {
            assert(other@.subrange(0, 0) =~= Seq::<Boid>::empty());
        }
        while i < other.len()
            invariant
                i <= other@.len(),
                other@.len() <= FLOCK_MAX as int,
                params_wf(*params),
                boid_in_range(*self),
                all_in_range(other@),
                count <= i,
                count as int == seen_count(*self, other@.subrange(0, i as int), *params),
                avg_velocity@ == vel_sum(*self, other@.subrange(0, i as int), *params),
                in_range(avg_velocity@, count as int * (VEL_MAX as int)),
                steer@ == v3_zero(),
            decreases other@.len() - i,
        {
            let b: Boid = other[i];
            proof {
                assert(boid_in_range(other@[i as int]));
                lemma_abs_mul_bound(params.perception_radius as int,
                    params.perception_radius as int, PARAM_MAX as int, PARAM_MAX as int);
                lemma_count_bound_step(count as int, FLOCK_MAX as int, VEL_MAX as int);
            }
            let diff: Vec3 = self.position.sub(b.position);
            let raw: i128 = diff.raw_mag_sq();
            let pr2: i128 = (params.perception_radius as i128)
                * (params.perception_radius as i128);
            if raw > 0 && raw < pr2 {
                avg_velocity = avg_velocity.add(b.velocity);
                count = count + 1;
            }
            proof {
                assert(other@.subrange(0, i as int + 1).drop_last()
                    =~= other@.subrange(0, i as int));
                assert(other@.subrange(0, i as int + 1).last() == other@[i as int]);
            }
            i = i + 1;
        }
        proof {
            assert(other@.subrange(0, other@.len() as int) =~= other@);
        }
        if count > 0 {
            let c: i64 = count as i64;
            proof {
                lemma_div_scale_cancel(avg_velocity@.x, c as int, SCALE as int);
                lemma_div_scale_cancel(avg_velocity@.y, c as int, SCALE as int);
                lemma_div_scale_cancel(avg_velocity@.z, c as int, SCALE as int);
                lemma_div_mult_bound(avg_velocity@.x, c as int, VEL_MAX as int);
                lemma_div_mult_bound(avg_velocity@.y, c as int, VEL_MAX as int);
                lemma_div_mult_bound(avg_velocity@.z, c as int, VEL_MAX as int);
            }
            avg_velocity = avg_velocity.div(c * SCALE);
            steer = avg_velocity.sub(self.velocity);
        }
        steer
    }

    /// The cohesion steer against the given snapshot: the offset from the
    /// boid to the centroid of the seen neighbors.
    pub fn cohesion(&self, other: &Vec<Boid>, params: &FlockParams) -> (r: Vec3)
        requires
            params_wf(*params),
            boid_in_range(*self),
            all_in_range(other@),
            other@.len() <= FLOCK_MAX as int,
        ensures
            r@ == spec_cohesion(*self, other@, *params),
            in_range(r@, 2 * POS_MAX as int),
    {
        let mut center: Vec3 = Vec3::zero();
        let mut count: usize = 0;
        let mut steer: Vec3 = Vec3::zero();
        let mut i: usize = 0;
        proof {
            assert(other@.subrange(0, 0) =~= Seq::<Boid>::empty());
        }
        while i < other.len()
            invariant
                i <= other@.len(),
                other@.len() <= FLOCK_MAX as int,
                params_wf(*params),
                boid_in_range(*self),
                all_in_range(other@),
                count <= i,
                count as int == seen_count(*self, other@.subrange(0, i as int), *params),
                center@ == pos_sum(*self, other@.subrange(0, i as int), *params),
                in_range(center@, count as int * (POS_MAX as int)),
                steer@ == v3_zero(),
            decreases other@.len() - i,
        {
            let b: Boid = other[i];
            proof {
                assert(boid_in_range(other@[i as int]));
                lemma_abs_mul_bound(params.perception_radius as int,
                    params.perception_radius as int, PARAM_MAX as int, PARAM_MAX as int);
                lemma_count_bound_step(count as int, FLOCK_MAX as int, POS_MAX as int);
            }
            let diff: Vec3 = self.position.sub(b.position);
            let raw: i128 = diff.raw_mag_sq();
            let pr2: i128 = (params.perception_radius as i128)
                * (params.perception_radius as i128);
            if raw > 0 && raw < pr2 {
                center = center.add(b.position);
                count = count + 1;
            }
            proof {
                assert(other@.subrange(0, i as int + 1).drop_last()
                    =~= other@.subrange(0, i as int));
                assert(other@.subrange(0, i as int + 1).last() == other@[i as int]);
            }
            i = i + 1;
        }
        proof {
            assert(other@.subrange(0, other@.len() as int) =~= other@);
        }
        if count > 0 {
            let c: i64 = count as i64;
            proof {
                lemma_div_scale_cancel(center@.x, c as int, SCALE as int);
                lemma_div_scale_cancel(center@.y, c as int, SCALE as int);
                lemma_div_scale_cancel(center@.z, c as int, SCALE as int);
                lemma_div_mult_bound(center@.x, c as int, POS_MAX as int);
                lemma_div_mult_bound(center@.y, c as int, POS_MAX as int);
                lemma_div_mult_bound(center@.z, c as int, POS_MAX as int);
            }
            center = center.div(c * SCALE);
            steer = center.sub(self.position);
        }
        steer
    }

    /// One per-agent update against the snapshot `other`: weigh and sum the
    /// three steers, cap the force, integrate the velocity (capping the
    /// speed), then integrate the position. The boundary policy is applied
    /// by the caller afterwards.
    pub fn update(&mut self, other: &Vec<Boid>, params: &FlockParams, dt: i64)
        requires
            params_wf(*params),
            boid_in_range(*old(self)),
            all_in_range(other@),
            other@.len() <= FLOCK_MAX as int,
            0 < dt <= DT_MAX,
        ensures
            final(self).velocity@ == spec_velocity_after(*old(self), other@, *params, dt as int),
            final(self).position@ == spec_position_after(*old(self), other@, *params, dt as int),
            in_range(final(self).velocity@, params.max_speed as int),
            v3_raw_sq(final(self).velocity@)
                <= (params.max_speed as int + 4) * (params.max_speed as int + 4),
            in_range(final(self).position@, POS_STEP_MAX as int),
    {
        let sep: Vec3 = self.separation(other, params);
        let ali: Vec3 = self.alignment(other, params);
        let coh: Vec3 = self.cohesion(other, params);
        proof {
            lemma_scale_range(sep@, params.separation_weight as int,
                (SCALE * SCALE) as int, PARAM_MAX as int);
            lemma_scale_range(ali@, params.alignment_weight as int,
                2 * VEL_MAX as int, PARAM_MAX as int);
            lemma_scale_range(coh@, params.cohesion_weight as int,
                2 * POS_MAX as int, PARAM_MAX as int);
        }
        let sep_w: Vec3 = sep.mul(params.separation_weight);
        let ali_w: Vec3 = ali.mul(params.alignment_weight);
        let coh_w: Vec3 = coh.mul(params.cohesion_weight);
        let force: Vec3 = sep_w.add(ali_w).add(coh_w).limit(params.max_force);
        proof {
            lemma_scale_range(force@, dt as int, PARAM_MAX as int, DT_MAX as int);
        }
        let dv: Vec3 = force.mul(dt);
        self.velocity = self.velocity.add(dv).limit(params.max_speed);
        proof {
            lemma_scale_range(self.velocity@, dt as int, PARAM_MAX as int, DT_MAX as int);
        }
        let dp: Vec3 = self.velocity.mul(dt);
        self.position = self.position.add(dp);
    }
}

/// The neighbor count never goes negative.
pub proof fn lemma_seen_count_nonneg(me: Boid, others: Seq<Boid>, p: FlockParams)
    ensures
        seen_count(me, others, p) >= 0,
    decreases others.len(),
{
    if others.len() > 0 {
        lemma_seen_count_nonneg(me, others.drop_last(), p);
    }
}

/// Degenerate-case law: with no seen neighbor, all three steers are the
/// zero vector — no neighbors is no force, not an error.
pub proof fn lemma_no_neighbor_no_steer(me: Boid, others: Seq<Boid>, p: FlockParams)
    requires
        seen_count(me, others, p) == 0,
    ensures
        sep_sum(me, others, p) == v3_zero(),
        spec_separation(me, others, p) == v3_zero(),
        spec_alignment(me, others, p) == v3_zero(),
        spec_cohesion(me, others, p) == v3_zero(),
    decreases others.len(),
{
    if others.len() > 0 {
        lemma_seen_count_nonneg(me, others.drop_last(), p);
        assert(!sees(me, others.last(), p));
        lemma_no_neighbor_no_steer(me, others.drop_last(), p);
    }
}

/// Boundedness law of the force: whatever the snapshot, the steering force
/// stays within `max_force` componentwise, and its raw squared magnitude
/// within `(max_force + 4) * (max_force + 4)`.
pub proof fn lemma_force_bounded(me: Boid, others: Seq<Boid>, p: FlockParams)
    requires
        p.max_force >= 0,
    ensures
        in_range(spec_force(me, others, p), p.max_force as int),
        v3_raw_sq(spec_force(me, others, p))
            <= (p.max_force as int + 4) * (p.max_force as int + 4),
{
    crate::vec3::lemma_limit_bounds(spec_weighted_steer(me, others, p), p.max_force as int);
}

/// Boundedness law of the velocity: whatever the snapshot, the post-update
/// velocity stays within `max_speed` componentwise, and its raw squared
/// magnitude within `(max_speed + 4) * (max_speed + 4)`.
pub proof fn lemma_velocity_bounded(me: Boid, others: Seq<Boid>, p: FlockParams, dt: int)
    requires
        p.max_speed >= 0,
    ensures
        in_range(spec_velocity_after(me, others, p, dt), p.max_speed as int),
        v3_raw_sq(spec_velocity_after(me, others, p, dt))
            <= (p.max_speed as int + 4) * (p.max_speed as int + 4),
{
    crate::vec3::lemma_limit_bounds(
        v3_add(me.velocity@, v3_scale(spec_force(me, others, p), dt)),
        p.max_speed as int,
    );
}

/// Scaling the zero vector gives the zero vector.
proof fn lemma_scale_zero(k: int)
    ensures
        v3_scale(v3_zero(), k) == v3_zero(),
{
    assert(0 as int * k == 0) by (nonlinear_arith);
    vstd::arithmetic::div_mod::lemma_div_of0(SCALE as int);
}

/// Capping a vector that already lies within `max_speed` leaves it alone,
/// and capping the zero vector gives zero whatever the cap.
proof fn lemma_limit_of_zero(k: int)
    requires
        k >= 0,
    ensures
        v3_limit(v3_zero(), k) == v3_zero(),
{
    assert(v3_raw_sq(v3_zero()) == 0);
    assert(k * k >= 0) by (nonlinear_arith);
}

/// Isolation law: a boid whose only snapshot entry is itself sees no
/// neighbor, so all three steers are zero, its velocity is unchanged (its
/// speed being within the cap), and it moves in a straight line — the
/// position advances by exactly `velocity * dt`.
pub proof fn lemma_single_boid_coasts(b: Boid, p: FlockParams, dt: int)
    requires
        p.max_force >= 0,
        p.max_speed >= 0,
        v3_raw_sq(b.velocity@) <= (p.max_speed as int) * (p.max_speed as int),
    ensures
        spec_separation(b, seq![b], p) == v3_zero(),
        spec_alignment(b, seq![b], p) == v3_zero(),
        spec_cohesion(b, seq![b], p) == v3_zero(),
        spec_force(b, seq![b], p) == v3_zero(),
        spec_velocity_after(b, seq![b], p, dt) == b.velocity@,
        spec_position_after(b, seq![b], p, dt)
            == v3_add(b.position@, v3_scale(b.velocity@, dt)),
{
    let s = seq![b];
    assert(s.drop_last() =~= Seq::<Boid>::empty());
    assert(s.last() == b);
    assert(v3_sub(b.position@, b.position@) == (V3 { x: 0, y: 0, z: 0 }));
    assert(!sees(b, b, p));
    assert(sep_sum(b, Seq::<Boid>::empty(), p) == v3_zero());
    assert(seen_count(b, Seq::<Boid>::empty(), p) == 0);
    assert(vel_sum(b, Seq::<Boid>::empty(), p) == v3_zero());
    assert(pos_sum(b, Seq::<Boid>::empty(), p) == v3_zero());
    assert(sep_sum(b, s, p) == v3_zero());
    assert(seen_count(b, s, p) == 0);
    lemma_scale_zero(p.separation_weight as int);
    lemma_scale_zero(p.alignment_weight as int);
    lemma_scale_zero(p.cohesion_weight as int);
    assert(spec_weighted_steer(b, s, p) == v3_zero());
    lemma_limit_of_zero(p.max_force as int);
    lemma_scale_zero(dt);
    assert(v3_add(b.velocity@, v3_zero()) == b.velocity@);
    assert(spec_velocity_after(b, s, p, dt) == b.velocity@);
}

/// Frozen-steering law: with `max_force == 0` the steering force is the
/// zero vector whatever the snapshot holds, so a boid whose speed is within
/// the cap keeps its velocity exactly.
pub proof fn lemma_zero_max_force_keeps_velocity(
    b: Boid,
    others: Seq<Boid>,
    p: FlockParams,
    dt: int,
)
    requires
        p.max_force == 0,
        v3_raw_sq(b.velocity@) <= (p.max_speed as int) * (p.max_speed as int),
    ensures
        spec_force(b, others, p) == v3_zero(),
        spec_velocity_after(b, others, p, dt) == b.velocity@,
{
    let steer = spec_weighted_steer(b, others, p);
    let raw = v3_raw_sq(steer);
    assert(steer.x * steer.x >= 0 && steer.y * steer.y >= 0 && steer.z * steer.z >= 0)
        by (nonlinear_arith);
    if raw <= 0 {
        crate::scalars::lemma_le_sq(steer.x, 0);
        crate::scalars::lemma_le_sq(steer.y, 0);
        crate::scalars::lemma_le_sq(steer.z, 0);
        assert(steer == v3_zero());
    } else {
        crate::scalars::lemma_sqrt_floor_bounds(raw);
        let m = crate::scalars::sqrt_floor(raw);
        if m == 0 {
            assert(raw < 1) by (nonlinear_arith)
                requires raw < (m + 1) * (m + 1), m == 0;
            assert(false);
        }
        assert(steer.x * 0 == 0 && steer.y * 0 == 0 && steer.z * 0 == 0)
            by (nonlinear_arith);
        vstd::arithmetic::div_mod::lemma_div_of0(m);
        assert(spec_force(b, others, p) == v3_zero());
    }
    lemma_scale_zero(dt);
    assert(v3_add(b.velocity@, v3_zero()) == b.velocity@);
}

} // verus!
