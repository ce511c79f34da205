//! Narrow-phase collision detection for convex shapes — axis-aligned boxes,
//! oriented boxes, and spheres — over exact fixed-point arithmetic.
//!
//! The crate answers two questions about a pair of shapes: whether they
//! intersect, and, if so, along which normal and how deep.  Four engines are
//! provided: a closed-form AABB test, the separating-axis theorem for oriented
//! boxes, and GJK with EPA over a support-function abstraction shared by all
//! shapes.  Coordinates are `i64` fixed-point values with `math::UNIT`
//! (65536) standing for one world unit.
use vstd::prelude::*;

pub mod bounds;
pub mod convex_hull;
pub mod dynamic_collision;
pub mod laws;
pub mod math;
pub mod sphere;
pub mod static_collision;

use crate::bounds::{aabb_overlap, BoundingBox};
use crate::math::{
    in_b, sqr, v3, vdot, isqrt64, lemma_mul_le, try_normalize, Vec3, POINT_B, SHAPE_B,
};
use crate::sphere::{axis_excess, box_sphere_overlap, local_center, sphere_overlap, Sphere};

verus! {

/// The outcome of a successful details query: the collision normal (a
/// fixed-point vector of length `math::UNIT`, or zero for a touching or
/// degenerate contact) and the penetration depth along it, in fixed-point
/// world units.  The sign conventions follow each query's contract.
#[derive(Clone, Copy, Debug, PartialEq, Eq, Structural)]
pub struct CollisionDetails {
    pub normal: Vec3,
    pub penetration: i64,
}

/// The static box-box dispatch: SAT when either box is rotated, the AABB
/// fast path otherwise.
pub open spec fn boxes_collide(a: BoundingBox, b: BoundingBox) -> bool {
    if a.rotation is Some || b.rotation is Some {
        BoundingBox::sat_overlap_all(a, b)
    } else {
        aabb_overlap(a, b)
    }
}

impl BoundingBox {
    /// Box-vs-box intersection: SAT when either box is rotated, the AABB
    /// fast path otherwise.
    pub fn check_boundingbox_collision(&self, other: &BoundingBox) -> (r: bool)
        requires
            self.wf(),
            other.wf(),
        ensures
            r == boxes_collide(*self, *other),
    {
        if self.rotation().is_some() || other.rotation().is_some() {
            self.obb_collision(other)
        } else {
            self.aabb_collision(other)
        }
    }

    /// Box-vs-sphere intersection: the sphere center is carried into the
    /// box's local frame, and the clamped squared distance to the box is
    /// compared with the squared radius (touching counts).
    pub fn check_sphere_collision(&self, sphere: &Sphere) -> (r: bool)
        requires
            self.wf(),
            sphere.wf(),
        ensures
            r == box_sphere_overlap(*self, *sphere),
    {
        let local_sphere_center = local_center(self, &sphere.center);
        Self::check_aabb_sphere_collision(&self.extents(), &local_sphere_center, sphere.radius)
    }

    /// The origin-centered, axis-aligned core of the box-vs-sphere test.
    fn check_aabb_sphere_collision(aabb_extents: &Vec3, center: &Vec3, radius: i64) -> (r: bool)
        requires
            0 <= aabb_extents.x <= SHAPE_B,
            0 <= aabb_extents.y <= SHAPE_B,
            0 <= aabb_extents.z <= SHAPE_B,
            in_b(*center, POINT_B as int),
            0 <= radius <= SHAPE_B,
        ensures
            r == (axis_excess(center.x as int, aabb_extents.x as int) * axis_excess(
                center.x as int,
                aabb_extents.x as int,
            ) + axis_excess(center.y as int, aabb_extents.y as int) * axis_excess(
                center.y as int,
                aabb_extents.y as int,
            ) + axis_excess(center.z as int, aabb_extents.z as int) * axis_excess(
                center.z as int,
                aabb_extents.z as int,
            ) <= radius * radius),
    {
        let ax: i64 = if center.x >= 0 { center.x } else { -center.x };
        let ay: i64 = if center.y >= 0 { center.y } else { -center.y };
        let az: i64 = if center.z >= 0 { center.z } else { -center.z };
        let dx: i64 = ax - aabb_extents.x;
        let dy: i64 = ay - aabb_extents.y;
        let dz: i64 = az - aabb_extents.z;
        proof {
            lemma_mul_le(dx as int, dx as int, POINT_B as int, POINT_B as int);
            lemma_mul_le(dy as int, dy as int, POINT_B as int, POINT_B as int);
            lemma_mul_le(dz as int, dz as int, POINT_B as int, POINT_B as int);
        }
        let mut distance_sq: i128 = 0;
        if dx > 0 {
            distance_sq = distance_sq + sqr(dx);
        }
        if dy > 0 {
            distance_sq = distance_sq + sqr(dy);
        }
        if dz > 0 {
            distance_sq = distance_sq + sqr(dz);
        }
        distance_sq <= sqr(radius)
    }
}

impl Sphere {
    /// Sphere-vs-sphere intersection: squared center distance against the
    /// squared radii sum (touching counts).
    pub fn check_sphere_collision(&self, other: &Sphere) -> (r: bool)
        requires
            self.wf(),
            other.wf(),
        ensures
            r == sphere_overlap(*self, *other),
    {
        let d = Vec3 {
            x: self.center.x - other.center.x,
            y: self.center.y - other.center.y,
            z: self.center.z - other.center.z,
        };
        let n2: i128 = vdot(&d, &d);
        n2 <= sqr(self.radius + other.radius)
    }

    /// Sphere-vs-sphere details: the penetration is the radii sum minus the
    /// center distance; the normal points from `other` toward `self`
    /// (zero for coincident centers).
    pub fn check_sphere_collision_details(&self, other: &Sphere) -> (r: Option<CollisionDetails>)
        requires
            self.wf(),
            other.wf(),
        ensures
            crate::sphere::sphere_details_ok(*self, *other, r),
    {
        let d = Vec3 {
            x: self.center.x - other.center.x,
            y: self.center.y - other.center.y,
            z: self.center.z - other.center.z,
        };
        let n2: i128 = vdot(&d, &d);
        proof {
            lemma_mul_le(d.x as int, d.x as int, 2 * (SHAPE_B as int), 2 * (SHAPE_B as int));
            lemma_mul_le(d.y as int, d.y as int, 2 * (SHAPE_B as int), 2 * (SHAPE_B as int));
            lemma_mul_le(d.z as int, d.z as int, 2 * (SHAPE_B as int), 2 * (SHAPE_B as int));
            assert((d.x as int) * (d.x as int) >= 0) by (nonlinear_arith);
            assert((d.y as int) * (d.y as int) >= 0) by (nonlinear_arith);
            assert((d.z as int) * (d.z as int) >= 0) by (nonlinear_arith);
        }
        if n2 > sqr(self.radius + other.radius) {
            return None;
        }
        proof {
            crate::math::lemma_sqrt_floor_le_sq(n2 as int, self.radius + other.radius);
        }
        let distance: i64 = isqrt64(n2 as u64) as i64;
        let penetration: i64 = self.radius + other.radius - distance;
        let normal: Vec3 = match try_normalize(&d) {
            Some(u) => u,
            None => Vec3 { x: 0, y: 0, z: 0 },
        };
        proof {
            if v3(d) == crate::math::zero3() {
                assert(v3(self.center) == v3(other.center));
            }
        }
        Some(CollisionDetails { normal, penetration })
    }

    /// Sphere-vs-box intersection delegates to the box-vs-sphere test.
    pub fn check_boundingbox_collision(&self, other: &BoundingBox) -> (r: bool)
        requires
            self.wf(),
            other.wf(),
        ensures
            r == box_sphere_overlap(*other, *self),
    {
        other.check_sphere_collision(self)
    }
}

} // verus!
