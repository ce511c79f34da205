//! The static-collision façade: one trait over every shape pair, selecting
//! the right engine per combination.
use vstd::prelude::*;

use crate::bounds::{aabb_details_ok, sat_details_ok, BoundingBox};
use crate::boxes_collide;
use crate::convex_hull::{dir_normalize, dirn3, ConvexHull};
use crate::math::{lemma_mul_le, v3, vdot, vneg, isqrt64, Vec3, POINT_B};
use crate::sphere::{
    box_sphere_details_ok, box_sphere_overlap, box_sphere_pen, lemma_to_center_norm2,
    sphere_details_ok, sphere_overlap, to_center, to_center_world3, mat_mul_vec_wide, Sphere,
};
use crate::CollisionDetails;

verus! {

/// Collision queries between two motionless shapes.  Each impl states,
/// through the two spec functions, exactly which geometric predicate its
/// boolean answers and which report its details query produces.
pub trait StaticCollision<T: ConvexHull>: Sized {
    /// The well-formedness both shapes must have for exact arithmetic.
    spec fn static_pair_wf(&self, other: &T) -> bool;

    /// What the boolean query decides.
    spec fn static_collides(&self, other: &T) -> bool;

    /// What the details query reports.
    spec fn static_details_ok(&self, other: &T, r: Option<CollisionDetails>) -> bool;

    fn check_static_collision(&self, other: &T) -> (r: bool)
        requires
            self.static_pair_wf(other),
        ensures
            r == self.static_collides(other),
    ;

    fn check_static_collision_details(&self, other: &T) -> (r: Option<CollisionDetails>)
        requires
            self.static_pair_wf(other),
        ensures
            self.static_details_ok(other, r),
    ;
}

impl StaticCollision<BoundingBox> for BoundingBox {
    open spec fn static_pair_wf(&self, other: &BoundingBox) -> bool {
        self.wf() && other.wf()
    }

    open spec fn static_collides(&self, other: &BoundingBox) -> bool {
        boxes_collide(*self, *other)
    }

    open spec fn static_details_ok(&self, other: &BoundingBox, r: Option<CollisionDetails>) -> bool {
        if self.rotation is Some || other.rotation is Some {
            sat_details_ok(*self, *other, r)
        } else {
            aabb_details_ok(*self, *other, r)
        }
    }

    /// Box vs box: SAT when either box is rotated, the AABB fast path
    /// otherwise.
    fn check_static_collision(&self, other: &BoundingBox) -> (r: bool) {
        if self.rotation().is_some() || other.rotation().is_some() {
            self.obb_collision(other)
        } else {
            self.aabb_collision(other)
        }
    }

    fn check_static_collision_details(&self, other: &BoundingBox) -> (r: Option<CollisionDetails>) {
        if self.rotation().is_some() || other.rotation().is_some() {
            self.obb_collision_details(other)
        } else {
            self.aabb_collision_details(other)
        }
    }
}

impl StaticCollision<Sphere> for BoundingBox {
    open spec fn static_pair_wf(&self, other: &Sphere) -> bool {
        self.wf() && other.wf()
    }

    open spec fn static_collides(&self, other: &Sphere) -> bool {
        box_sphere_overlap(*self, *other)
    }

    open spec fn static_details_ok(&self, other: &Sphere, r: Option<CollisionDetails>) -> bool {
        box_sphere_details_ok(*self, *other, r)
    }

    /// Box vs sphere: the sphere center is clamped to the box in the box's
    /// local frame and the residual distance compared with the radius.
    fn check_static_collision(&self, sphere: &Sphere) -> (r: bool) {
        self.check_sphere_collision(sphere)
    }

    fn check_static_collision_details(&self, sphere: &Sphere) -> (r: Option<CollisionDetails>) {
        let t = to_center(self, sphere);
        let n2: i128 = vdot(&t, &t);
        proof {
            lemma_mul_le(t.x as int, t.x as int, POINT_B as int, POINT_B as int);
            lemma_mul_le(t.y as int, t.y as int, POINT_B as int, POINT_B as int);
            lemma_mul_le(t.z as int, t.z as int, POINT_B as int, POINT_B as int);
            assert((t.x as int) * (t.x as int) >= 0) by (nonlinear_arith);
            assert((t.y as int) * (t.y as int) >= 0) by (nonlinear_arith);
            assert((t.z as int) * (t.z as int) >= 0) by (nonlinear_arith);
            lemma_to_center_norm2(*self, *sphere);
            lemma_mul_le(sphere.radius as int, sphere.radius as int, POINT_B as int, POINT_B as int);
        }
        if n2 > (sphere.radius as i128) * (sphere.radius as i128) {
            return None;
        }
        proof {
            crate::math::lemma_sqrt_floor_le_sq(n2 as int, sphere.radius as int);
        }
        let dist: i64 = isqrt64(n2 as u64) as i64;
        let penetration: i64 = sphere.radius - dist;
        let w: Vec3 = match &self.rotation {
            Some(m) => mat_mul_vec_wide(m, &t),
            None => t,
        };
        let normal = vneg(&dir_normalize(&w));
        Some(CollisionDetails { normal, penetration })
    }
}

impl StaticCollision<BoundingBox> for Sphere {
    open spec fn static_pair_wf(&self, other: &BoundingBox) -> bool {
        self.wf() && other.wf()
    }

    open spec fn static_collides(&self, other: &BoundingBox) -> bool {
        box_sphere_overlap(*other, *self)
    }

    /// The symmetric details query flips the normal and keeps the
    /// penetration non-negative, so the reported vector still moves the
    /// first shape (the sphere) out of the second.
    open spec fn static_details_ok(&self, other: &BoundingBox, r: Option<CollisionDetails>) -> bool {
        &&& (r is Some <==> box_sphere_overlap(*other, *self))
        &&& (r matches Some(cd) ==> {
            &&& cd.penetration == box_sphere_pen(*other, *self)
            &&& cd.penetration >= 0
            &&& v3(cd.normal) == dirn3(to_center_world3(*other, *self))
        })
    }

    fn check_static_collision(&self, other: &BoundingBox) -> (r: bool) {
        other.check_static_collision(self)
    }

    fn check_static_collision_details(&self, other: &BoundingBox) -> (r: Option<CollisionDetails>) {
        match other.check_static_collision_details(self) {
            None => None,
            Some(details) => Some(
                CollisionDetails {
                    normal: vneg(&details.normal),
                    penetration: details.penetration,
                },
            ),
        }
    }
}

impl StaticCollision<Sphere> for Sphere {
    open spec fn static_pair_wf(&self, other: &Sphere) -> bool {
        self.wf() && other.wf()
    }

    open spec fn static_collides(&self, other: &Sphere) -> bool {
        sphere_overlap(*self, *other)
    }

    open spec fn static_details_ok(&self, other: &Sphere, r: Option<CollisionDetails>) -> bool {
        sphere_details_ok(*self, *other, r)
    }

    /// Sphere vs sphere: center distance against the radii sum.
    fn check_static_collision(&self, other: &Sphere) -> (r: bool) {
        self.check_sphere_collision(other)
    }

    fn check_static_collision_details(&self, other: &Sphere) -> (r: Option<CollisionDetails>) {
        self.check_sphere_collision_details(other)
    }
}

} // verus!
