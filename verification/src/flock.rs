//! The flock engine: a fixed population in two buffers, advanced one tick
//! at a time. Every agent's update reads the same immutable snapshot of the
//! current buffer and writes only its own slot of the inactive buffer, so a
//! tick is free of read-after-write hazards and its result is independent
//! of the order the agents are processed in.

use vstd::prelude::*;
use crate::vec3::{Vec3, V3, v3_raw_sq, in_range};
use crate::boid::{
    Boid, boid_in_range, all_in_range, spec_velocity_after, spec_position_after,
    POS_MAX, POS_STEP_MAX, FLOCK_MAX, DT_MAX,
};
use crate::flock_params::{FlockParams, params_wf, BoundaryType};
use crate::scalars::rem_euclid_fx;

verus! {

/// Componentwise toroidal wrap of `pos` into `[min, max)`, by a Euclidean
/// (always non-negative) remainder.
pub open spec fn spec_wrap(pos: V3, min: V3, max: V3) -> V3 {
    V3 {
        x: (pos.x - min.x) % (max.x - min.x) + min.x,
        y: (pos.y - min.y) % (max.y - min.y) + min.y,
        z: (pos.z - min.z) % (max.z - min.z) + min.z,
    }
}

/// Componentwise clamp of `pos` into `[min, max]`.
pub open spec fn spec_clamp(pos: V3, min: V3, max: V3) -> V3 {
    V3 {
        x: if pos.x < min.x { min.x } else if pos.x > max.x { max.x } else { pos.x },
        y: if pos.y < min.y { min.y } else if pos.y > max.y { max.y } else { pos.y },
        z: if pos.z < min.z { min.z } else if pos.z > max.z { max.z } else { pos.z },
    }
}

/// The configured boundary policy, as a pure function of the position.
pub open spec fn spec_boundary(bt: BoundaryType, pos: V3, min: V3, max: V3) -> V3 {
    match bt {
        BoundaryType::WrapAround => spec_wrap(pos, min, max),
        BoundaryType::SoftBoundry => spec_clamp(pos, min, max),
    }
}

/// `pos` lies in the half-open box `[min, max)` on every axis.
pub open spec fn in_box_half_open(pos: V3, min: V3, max: V3) -> bool {
    &&& min.x <= pos.x < max.x
    &&& min.y <= pos.y < max.y
    &&& min.z <= pos.z < max.z
}

/// `pos` lies in the closed box `[min, max]` on every axis.
pub open spec fn in_box_closed(pos: V3, min: V3, max: V3) -> bool {
    &&& min.x <= pos.x <= max.x
    &&& min.y <= pos.y <= max.y
    &&& min.z <= pos.z <= max.z
}

/// The position an agent ends the tick with: the integrated position put
/// back into the simulation volume by the configured boundary policy.
pub open spec fn spec_step_position(
    b: Boid,
    snapshot: Seq<Boid>,
    p: FlockParams,
    dt: int,
    min: V3,
    max: V3,
) -> V3 {
    spec_boundary(p.boundary_type, spec_position_after(b, snapshot, p, dt), min, max)
}

/// The fixed-size population, double-buffered.
pub struct Flock {
    pub buffer_a: Vec<Boid>,
    pub buffer_b: Vec<Boid>,
    pub active_buffer: bool,
    pub params: FlockParams,
}

impl Flock {
    /// The authoritative state of the swarm.
    pub open spec fn current(self) -> Seq<Boid> {
        if self.active_buffer {
            self.buffer_a@
        } else {
            self.buffer_b@
        }
    }

    /// The buffer the next tick will be written into.
    pub open spec fn next(self) -> Seq<Boid> {
        if self.active_buffer {
            self.buffer_b@
        } else {
            self.buffer_a@
        }
    }

    /// Both buffers hold the fixed population size.
    pub open spec fn wf(self) -> bool {
        self.buffer_a@.len() == self.buffer_b@.len()
    }

    /// A flock the tick's arithmetic accepts: well-formed parameters, an
    /// acceptable population, and every current agent within range.
    pub open spec fn tick_ready(self) -> bool {
        &&& self.wf()
        &&& params_wf(self.params)
        &&& all_in_range(self.current())
        &&& self.current().len() <= FLOCK_MAX as int
    }

    /// Builds a flock whose two buffers both hold `initial_boids`, with the
    /// first buffer active.
    pub fn new(initial_boids: Vec<Boid>, params: FlockParams) -> (r: Flock)
        ensures
            r.active_buffer == true,
            r.params == params,
            r.current() == initial_boids@,
            r.next() == initial_boids@,
            r.wf(),
    {
        let copy: Vec<Boid> = copy_boids(&initial_boids);
        Flock { buffer_a: initial_boids, buffer_b: copy, active_buffer: true, params }
    }

    /// Toroidal wrap of `pos` into `[min, max)`, axis by axis. A position
    /// already inside the box comes back unchanged; one at or beyond a face
    /// re-enters from the opposite face.
    pub fn wrap_around(pos: Vec3, min: Vec3, max: Vec3) -> (r: Vec3)
        requires
            min@.x < max@.x,
            min@.y < max@.y,
            min@.z < max@.z,
            in_range(min@, POS_MAX as int),
            in_range(max@, POS_MAX as int),
            in_range(pos@, POS_STEP_MAX as int),
        ensures
            r@ == spec_wrap(pos@, min@, max@),
            in_box_half_open(r@, min@, max@),
            in_box_half_open(pos@, min@, max@) ==> r == pos,
    {
        let x: i64 = rem_euclid_fx(pos.x - min.x, max.x - min.x) + min.x;
        let y: i64 = rem_euclid_fx(pos.y - min.y, max.y - min.y) + min.y;
        let z: i64 = rem_euclid_fx(pos.z - min.z, max.z - min.z) + min.z;
        proof {
            lemma_wrap_interior(pos@.x, min@.x, max@.x);
            lemma_wrap_interior(pos@.y, min@.y, max@.y);
            lemma_wrap_interior(pos@.z, min@.z, max@.z);
        }
        Vec3 { x, y, z }
    }

    /// Clamp of `pos` into `[min, max]`, axis by axis. Only the position is
    /// touched: an agent keeps its (possibly outward) velocity at a wall.
    pub fn soft_boundry(pos: Vec3, min: Vec3, max: Vec3) -> (r: Vec3)
        requires
            min@.x <= max@.x,
            min@.y <= max@.y,
            min@.z <= max@.z,
        ensures
            r@ == spec_clamp(pos@, min@, max@),
            in_box_closed(r@, min@, max@),
    {
        let mut p: Vec3 = pos;
        if p.x < min.x {
            p.x = min.x;
        }
        if p.x > max.x {
            p.x = max.x;
        }
        if p.y < min.y {
            p.y = min.y;
        }
        if p.y > max.y {
            p.y = max.y;
        }
        if p.z < min.z {
            p.z = min.z;
        }
        if p.z > max.z {
            p.z = max.z;
        }
        p
    }

    /// Read-only view of the authoritative buffer.
    pub fn current_boids(&self) -> (r: &Vec<Boid>)
        ensures
            r@ == self.current(),
    {
        if self.active_buffer {
            &self.buffer_a
        } else {
            &self.buffer_b
        }
    }

    /// Mutable view of the inactive buffer, for seeding and tests; `tick`
    /// itself writes it only slot by slot.
    pub fn next_boids(&mut self) -> (r: &mut Vec<Boid>)
        ensures
            (*r)@ == old(self).next(),
            final(self).active_buffer == old(self).active_buffer,
            final(self).params == old(self).params,
            old(self).active_buffer ==> final(self).buffer_a == old(self).buffer_a
                && final(self).buffer_b == *final(r),
            !old(self).active_buffer ==> final(self).buffer_b == old(self).buffer_b
                && final(self).buffer_a == *final(r),
    {
        if self.active_buffer {
            &mut self.buffer_b
        } else {
            &mut self.buffer_a
        }
    }

    /// Advances the whole population by one time step `dt`: every agent is
    /// updated against the same snapshot of the current buffer, the result
    /// (after the boundary policy) is written into the inactive buffer, and
    /// the buffers swap roles. Each agent's new state is a pure function of
    /// the snapshot and its own index, so the iteration order is irrelevant;
    /// the old state stays intact in the now-inactive buffer.
    pub fn tick(&mut self, dt: i64, bounds_min: Vec3, bounds_max: Vec3)
        requires
            old(self).tick_ready(),
            0 < dt <= DT_MAX,
            in_range(bounds_min@, POS_MAX as int),
            in_range(bounds_max@, POS_MAX as int),
            bounds_min@.x < bounds_max@.x,
            bounds_min@.y < bounds_max@.y,
            bounds_min@.z < bounds_max@.z,
        ensures
            final(self).wf(),
            final(self).params == old(self).params,
            final(self).active_buffer == !old(self).active_buffer,
            final(self).current().len() == old(self).current().len(),
            final(self).next() == old(self).current(),
            forall|i: int| 0 <= i < old(self).current().len()
                ==> (#[trigger] final(self).current()[i]).position@ == spec_step_position(
                    old(self).current()[i], old(self).current(), old(self).params,
                    dt as int, bounds_min@, bounds_max@,
                ),
            forall|i: int| 0 <= i < old(self).current().len()
                ==> (#[trigger] final(self).current()[i]).velocity@ == spec_velocity_after(
                    old(self).current()[i], old(self).current(), old(self).params, dt as int,
                ),
            all_in_range(final(self).current()),
            forall|i: int| 0 <= i < final(self).current().len()
                ==> v3_raw_sq((#[trigger] final(self).current()[i]).velocity@)
                    <= (old(self).params.max_speed as int + 4)
                        * (old(self).params.max_speed as int + 4),
            final(self).tick_ready(),
    {
        let ghost init = *self;
        let snapshot: Vec<Boid> = if self.active_buffer {
            copy_boids(&self.buffer_a)
        } else {
            copy_boids(&self.buffer_b)
        };
        let n: usize = snapshot.len();
        let mut i: usize = 0;
        while i < n
            invariant
                self.active_buffer == init.active_buffer,
                self.params == init.params,
                self.current() == init.current(),
                self.next().len() == init.current().len(),
                snapshot@ == init.current(),
                n == snapshot@.len(),
                i <= n,
                init.tick_ready(),
                0 < dt <= DT_MAX,
                in_range(bounds_min@, POS_MAX as int),
                in_range(bounds_max@, POS_MAX as int),
                bounds_min@.x < bounds_max@.x,
                bounds_min@.y < bounds_max@.y,
                bounds_min@.z < bounds_max@.z,
                forall|j: int| 0 <= j < i
                    ==> (#[trigger] self.next()[j]).position@ == spec_step_position(
                        snapshot@[j], snapshot@, init.params, dt as int,
                        bounds_min@, bounds_max@,
                    ),
                forall|j: int| 0 <= j < i
                    ==> (#[trigger] self.next()[j]).velocity@ == spec_velocity_after(
                        snapshot@[j], snapshot@, init.params, dt as int,
                    ),
                forall|j: int| 0 <= j < i
                    ==> boid_in_range(#[trigger] self.next()[j])
                        && v3_raw_sq(self.next()[j].velocity@)
                            <= (init.params.max_speed as int + 4)
                                * (init.params.max_speed as int + 4),
            decreases n - i,
        {
            let mut curr: Boid = snapshot[i];
            curr.update(&snapshot, &self.params, dt);
            curr.position = match self.params.boundary_type {
                BoundaryType::WrapAround => {
                    Flock::wrap_around(curr.position, bounds_min, bounds_max)
                },
                BoundaryType::SoftBoundry => {
                    Flock::soft_boundry(curr.position, bounds_min, bounds_max)
                },
            };
            if self.active_buffer {
                self.buffer_b[i] = curr;
            } else {
                self.buffer_a[i] = curr;
            }
            i = i + 1;
        }
        self.active_buffer = !self.active_buffer;
    }
}

/// One axis of the wrap: the result lands in `[min, max)`, and an interior
/// coordinate is left exactly where it was.
proof fn lemma_wrap_interior(c: int, min: int, max: int)
    requires
        min < max,
    ensures
        min <= (c - min) % (max - min) + min < max,
        min <= c < max ==> (c - min) % (max - min) + min == c,
{
    let w = max - min;
    assert(0 <= (c - min) % w < w);
    if min <= c < max {
        assert((c - min) % w == c - min) by {
            vstd::arithmetic::div_mod::lemma_small_mod((c - min) as nat, w as nat);
        }
    }
}

/// Order-independence law of the tick: any two buffers whose every slot was
/// filled from the same snapshot — in whatever order the slots were computed
/// or written — are equal, because each agent's new state is a function of
/// the snapshot and its own index alone.
pub proof fn lemma_tick_order_independent(
    snapshot: Seq<Boid>,
    p: FlockParams,
    dt: int,
    min: V3,
    max: V3,
    r1: Seq<Boid>,
    r2: Seq<Boid>,
)
    requires
        r1.len() == snapshot.len(),
        r2.len() == snapshot.len(),
        forall|i: int| 0 <= i < snapshot.len()
            ==> (#[trigger] r1[i]).position@
                    == spec_step_position(snapshot[i], snapshot, p, dt, min, max)
                && r1[i].velocity@ == spec_velocity_after(snapshot[i], snapshot, p, dt),
        forall|i: int| 0 <= i < snapshot.len()
            ==> (#[trigger] r2[i]).position@
                    == spec_step_position(snapshot[i], snapshot, p, dt, min, max)
                && r2[i].velocity@ == spec_velocity_after(snapshot[i], snapshot, p, dt),
    ensures
        r1 == r2,
{
    assert forall|i: int| 0 <= i < snapshot.len() implies r1[i] == r2[i] by {
        assert(r1[i].position@ == r2[i].position@);
        assert(r1[i].velocity@ == r2[i].velocity@);
        assert(r1[i].position == r2[i].position);
        assert(r1[i].velocity == r2[i].velocity);
    }
    assert(r1 =~= r2);
}

/// Continuity law of the wrap, at the top face of an axis: a coordinate
/// exactly at `max` wraps to `min`.
pub proof fn lemma_wrap_at_max(min: int, max: int)
    requires
        min < max,
    ensures
        (max - min) % (max - min) + min == min,
{
    vstd::arithmetic::div_mod::lemma_mod_self_0(max - min);
}

/// Continuity law of the wrap, below the bottom face of an axis: a
/// coordinate at `min - delta` (for `0 < delta <= max - min`) wraps to
/// `max - delta`.
pub proof fn lemma_wrap_below_min(min: int, max: int, delta: int)
    requires
        min < max,
        0 < delta <= max - min,
    ensures
        ((min - delta) - min) % (max - min) + min == max - delta,
{
    let w = max - min;
    assert(-delta == (-1) * w + (w - delta)) by (nonlinear_arith);
    vstd::arithmetic::div_mod::lemma_fundamental_div_mod_converse_mod(-delta, w, -1, w - delta);
}

/// A fresh buffer with the same contents (the population is `Copy`).
fn copy_boids(src: &Vec<Boid>) -> (r: Vec<Boid>)
    ensures
        r@ == src@,
{
    let mut r: Vec<Boid> = Vec::new();
    let mut i: usize = 0;
    while i < src.len()
        invariant
            i <= src@.len(),
            r@ == src@.subrange(0, i as int),
        decreases src@.len() - i,
    {
        r.push(src[i]);
        proof {
            assert(src@.subrange(0, i as int + 1)
                =~= src@.subrange(0, i as int).push(src@[i as int]));
        }
        i = i + 1;
    }
    proof {
        assert(src@.subrange(0, src@.len() as int) =~= src@);
    }
    r
}

} // verus!
