//! Simulation-wide configuration of the flocking engine.

use vstd::prelude::*;
use crate::SCALE;

verus! {

/// Largest fixed-point magnitude accepted for any configuration scalar:
/// the engine's arithmetic is proved overflow-free under this cap.
pub const PARAM_MAX: i64 = 1_000_000_000;

/// How agents are kept inside the simulation volume: toroidal wrapping or
/// clamping to the box.
#[derive(Clone, Copy, PartialEq, Eq, Structural, Debug)]
pub enum BoundaryType {
    WrapAround,
    SoftBoundry,
}

/// Per-simulation configuration, read-only during a tick. Changing it
/// between ticks is allowed and takes effect on the next tick.
#[derive(Clone, Copy, PartialEq, Eq, Structural, Debug)]
pub struct FlockParams {
    /// Neighbor visibility cutoff (fixed-point, must be positive).
    pub perception_radius: i64,
    /// Signed gain of the separation force (fixed-point).
    pub separation_weight: i64,
    /// Signed gain of the alignment force (fixed-point).
    pub alignment_weight: i64,
    /// Signed gain of the cohesion force (fixed-point).
    pub cohesion_weight: i64,
    /// Hard cap on an agent's speed (fixed-point, non-negative; zero
    /// freezes every agent that is already at rest).
    pub max_speed: i64,
    /// Hard cap on the steering force (fixed-point, non-negative; zero
    /// disables steering altogether).
    pub max_force: i64,
    /// The boundary policy applied after integration.
    pub boundary_type: BoundaryType,
}

/// A well-formed configuration: a positive perception radius, and every
/// scalar within the range the engine's arithmetic supports.
pub open spec fn params_wf(p: FlockParams) -> bool {
    &&& 0 < p.perception_radius <= PARAM_MAX
    &&& -PARAM_MAX <= p.separation_weight <= PARAM_MAX
    &&& -PARAM_MAX <= p.alignment_weight <= PARAM_MAX
    &&& -PARAM_MAX <= p.cohesion_weight <= PARAM_MAX
    &&& 0 <= p.max_speed <= PARAM_MAX
    &&& 0 <= p.max_force <= PARAM_MAX
}

impl FlockParams {
    /// The default configuration: a perception radius of ten units, unit
    /// weights and caps, and a wrapping boundary.
    pub fn new() -> (r: FlockParams)
        ensures
            r.perception_radius == 10 * SCALE,
            r.separation_weight == SCALE,
            r.alignment_weight == SCALE,
            r.cohesion_weight == SCALE,
            r.max_speed == SCALE,
            r.max_force == SCALE,
            r.boundary_type == BoundaryType::WrapAround,
            params_wf(r),
    {
        FlockParams {
            perception_radius: 10 * SCALE,
            separation_weight: SCALE,
            alignment_weight: SCALE,
            cohesion_weight: SCALE,
            max_speed: SCALE,
            max_force: SCALE,
            boundary_type: BoundaryType::WrapAround,
        }
    }
}

} // verus!
