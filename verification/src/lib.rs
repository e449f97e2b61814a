//! A fixed-population flocking ("boids") engine over fixed-point arithmetic.
//!
//! Scalars throughout the crate are signed 64-bit fixed-point numbers with
//! `SCALE` (= 1000) fractional units per whole unit, so that every steering
//! rule, integration step and boundary policy is exact integer arithmetic
//! with a verified contract.

use vstd::prelude::*;

pub mod boid;
pub mod flock;
pub mod flock_params;
pub mod scalars;
pub mod vec3;

pub use boid::Boid;
pub use boid::DT_MAX;
pub use boid::FLOCK_MAX;
pub use boid::POS_MAX;
pub use boid::VEL_MAX;
pub use flock::Flock;
pub use flock_params::BoundaryType;
pub use flock_params::FlockParams;
pub use flock_params::PARAM_MAX;
pub use scalars::rem_euclid_fx;
pub use vec3::Vec3;

verus! {

/// Fractional units per whole unit of the crate's fixed-point scalars.
pub const SCALE: i64 = 1000;

} // verus!
