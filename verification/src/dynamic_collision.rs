//! The swept (dynamic) collision interface.
//!
//! This interface is declared for callers that will need
//! velocity-parameterised queries, but no implementation is provided yet:
//! the sweep algorithms are unspecified, and callers must not depend on
//! them.
use vstd::prelude::*;

use crate::convex_hull::ConvexHull;
use crate::math::Vec3;
use crate::CollisionDetails;

verus! {

/// Collision queries between a moving shape (`self`, with `velocity`) and a
/// motionless one.
pub trait DynamicCollision<T: ConvexHull> {
    fn check_dynamic_collision(&self, velocity: &Vec3, other: &T) -> bool;

    fn check_dynamic_collision_details(&self, velocity: &Vec3, other: &T) -> Option<
        CollisionDetails,
    >;
}

} // verus!
