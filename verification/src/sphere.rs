//! Spheres, and the spec-level geometry shared by the sphere queries.
use vstd::prelude::*;

use crate::bounds::{mat_wf, rotv3, BoundingBox};
use crate::math::{
    abs_i, dot3, in_b, lemma_mul_le, lemma_tdivs_bound, norm2_3, sqrt_floor, sub3, tdiv128,
    tdivs, v3, vdot, Mat3, V3, Vec3, CROSS_B, POINT_B, ROT_B, SHAPE_B, UNIT,
};

verus! {

/// A sphere: world-space center and non-negative radius.
#[derive(Clone, Copy, Debug)]
pub struct Sphere {
    pub center: Vec3,
    pub radius: i64,
}

impl Sphere {
    /// Well-formedness: coordinates within `SHAPE_B`, radius non-negative.
    pub open spec fn wf(self) -> bool {
        &&& in_b(self.center, SHAPE_B as int)
        &&& 0 <= self.radius <= SHAPE_B
    }

    /// A point is inside iff its squared distance to the center is at most
    /// the squared radius (touching counts).
    pub fn check_point_collision(&self, point: &Vec3) -> (r: bool)
        requires
            self.wf(),
            in_b(*point, POINT_B as int),
        ensures
            r == (norm2_3(sub3(v3(*point), v3(self.center))) <= self.radius * self.radius),
    {
        let d = Vec3 {
            x: point.x - self.center.x,
            y: point.y - self.center.y,
            z: point.z - self.center.z,
        };
        let n2: i128 = vdot(&d, &d);
        proof {
            lemma_mul_le(self.radius as int, self.radius as int, SHAPE_B as int, SHAPE_B as int);
        }
        n2 <= (self.radius as i128) * (self.radius as i128)
    }

    /// A copy grown by `amount` (which may be negative, down to `-radius`).
    pub fn inflated(&self, amount: i64) -> (r: Sphere)
        requires
            self.wf(),
            0 <= self.radius + amount <= SHAPE_B,
        ensures
            r.center == self.center,
            r.radius == self.radius + amount,
            r.wf(),
    {
        Sphere { center: self.center, radius: self.radius + amount }
    }
}

// ---------------------------------------------------------------------------
// Spec-level geometry shared by the sphere queries
// ---------------------------------------------------------------------------

/// Application of the transpose of a rotation basis: each component is the
/// dot with the matching column, brought back to fixed-point scale.
pub open spec fn rotv3_t(m: Mat3, v: V3) -> V3 {
    V3 {
        x: tdivs(dot3(v3(m.x_axis), v), UNIT as int),
        y: tdivs(dot3(v3(m.y_axis), v), UNIT as int),
        z: tdivs(dot3(v3(m.z_axis), v), UNIT as int),
    }
}

/// A world point expressed in the local frame of a box (the transpose of an
/// orthonormal basis is its inverse).
pub open spec fn local_center3(b: BoundingBox, c: V3) -> V3 {
    match b.rotation {
        Some(m) => rotv3_t(m, sub3(c, v3(b.center))),
        None => sub3(c, v3(b.center)),
    }
}

/// How far a local coordinate sticks out beyond the matching extent
/// (zero inside the slab).
pub open spec fn axis_excess(l: int, e: int) -> int {
    if abs_i(l) - e > 0 {
        abs_i(l) - e
    } else {
        0
    }
}

/// Squared distance from a sphere center to the solid box.
pub open spec fn box_sphere_dist2(b: BoundingBox, s: Sphere) -> int {
    let l = local_center3(b, v3(s.center));
    axis_excess(l.x, b.extents.x as int) * axis_excess(l.x, b.extents.x as int) + axis_excess(
        l.y,
        b.extents.y as int,
    ) * axis_excess(l.y, b.extents.y as int) + axis_excess(l.z, b.extents.z as int) * axis_excess(
        l.z,
        b.extents.z as int,
    )
}

/// A box and a sphere meet iff the clamped squared distance from the sphere
/// center to the box is at most the squared radius.
pub open spec fn box_sphere_overlap(b: BoundingBox, s: Sphere) -> bool {
    box_sphere_dist2(b, s) <= s.radius * s.radius
}

/// The signed offset, per axis, from the nearest box-surface point to the
/// sphere center in the box's local frame: the excess beyond the slab,
/// carrying the sign of the local coordinate (zero inside the slab).
pub open spec fn to_center_axis(l: int, e: int) -> int {
    if abs_i(l) - e >= 0 {
        if l > 0 {
            abs_i(l) - e
        } else if l < 0 {
            -(abs_i(l) - e)
        } else {
            0
        }
    } else {
        0
    }
}

/// The local vector from the nearest box point to the sphere center.
pub open spec fn to_center3(b: BoundingBox, s: Sphere) -> V3 {
    let l = local_center3(b, v3(s.center));
    V3 {
        x: to_center_axis(l.x, b.extents.x as int),
        y: to_center_axis(l.y, b.extents.y as int),
        z: to_center_axis(l.z, b.extents.z as int),
    }
}

/// Penetration of a sphere into a box: radius minus the distance (as the
/// floor of the square root) from the sphere center to the box surface.
pub open spec fn box_sphere_pen(b: BoundingBox, s: Sphere) -> int {
    s.radius - sqrt_floor(norm2_3(to_center3(b, s)))
}

/// Two spheres meet iff the squared center distance is at most the squared
/// sum of the radii (touching counts).
pub open spec fn sphere_overlap(a: Sphere, b: Sphere) -> bool {
    norm2_3(sub3(v3(a.center), v3(b.center))) <= (a.radius + b.radius) * (a.radius + b.radius)
}

/// Sphere-sphere penetration: the radii sum minus the center distance.
pub open spec fn sphere_pen(a: Sphere, b: Sphere) -> int {
    a.radius + b.radius - sqrt_floor(norm2_3(sub3(v3(a.center), v3(b.center))))
}

/// The exact claim of the sphere-sphere details query: a report iff the
/// spheres overlap (the same squared test the boolean decides), carrying the
/// non-negative penetration and the unit vector from `b`'s center toward
/// `a`'s (zero for coincident centers).
pub open spec fn sphere_details_ok(a: Sphere, b: Sphere, r: Option<crate::CollisionDetails>) -> bool {
    &&& (r is Some <==> sphere_overlap(a, b))
    &&& (r matches Some(cd) ==> {
        &&& cd.penetration == sphere_pen(a, b)
        &&& cd.penetration >= 0
        &&& v3(cd.normal) == (if v3(a.center) == v3(b.center) {
            crate::math::zero3()
        } else {
            crate::math::normalize3(sub3(v3(a.center), v3(b.center)))
        })
    })
}

/// The world-frame offset from the nearest box point to the sphere center.
pub open spec fn to_center_world3(b: BoundingBox, s: Sphere) -> V3 {
    match b.rotation {
        Some(m) => rotv3(m, to_center3(b, s)),
        None => to_center3(b, s),
    }
}

/// The exact claim of the box-sphere details query: a report iff the box and
/// sphere overlap (the same squared test the boolean decides), carrying the
/// non-negative penetration and the unit vector from the sphere center
/// toward the box surface.
pub open spec fn box_sphere_details_ok(
    b: BoundingBox,
    s: Sphere,
    r: Option<crate::CollisionDetails>,
) -> bool {
    &&& (r is Some <==> box_sphere_overlap(b, s))
    &&& (r matches Some(cd) ==> {
        &&& cd.penetration == box_sphere_pen(b, s)
        &&& cd.penetration >= 0
        &&& v3(cd.normal) == crate::math::neg3(crate::convex_hull::dirn3(to_center_world3(b, s)))
        &&& in_b(cd.normal, crate::math::UNIT as int)
    })
}

/// The squared length of the offset to the sphere center equals the clamped
/// squared distance of the boolean test: the two differ per axis only in
/// sign, and only on the boundary where both are zero.
pub proof fn lemma_to_center_norm2(b: BoundingBox, s: Sphere)
    requires
        b.wf(),
    ensures
        norm2_3(to_center3(b, s)) == box_sphere_dist2(b, s),
{
    let l = local_center3(b, v3(s.center));
    lemma_to_center_axis_sq(l.x, b.extents.x as int);
    lemma_to_center_axis_sq(l.y, b.extents.y as int);
    lemma_to_center_axis_sq(l.z, b.extents.z as int);
}

proof fn lemma_to_center_axis_sq(l: int, e: int)
    requires
        e >= 0,
    ensures
        to_center_axis(l, e) * to_center_axis(l, e) == axis_excess(l, e) * axis_excess(l, e),
{
    let t = to_center_axis(l, e);
    let x = axis_excess(l, e);
    if abs_i(l) - e >= 0 && l < 0 {
        assert(t == -x);
        assert(t * t == x * x) by (nonlinear_arith)
            requires
                t == -x,
        ;
    } else {
        assert(t == x);
    }
}

// ---------------------------------------------------------------------------
// Exec helpers over the same specs
// ---------------------------------------------------------------------------

/// Exact transpose-rotation of a `POINT_B`-bounded vector.
pub fn mat_tmul_vec(m: &Mat3, v: &Vec3) -> (r: Vec3)
    requires
        mat_wf(*m),
        in_b(*v, 2 * (SHAPE_B as int)),
    ensures
        v3(r) == rotv3_t(*m, v3(*v)),
        in_b(r, POINT_B as int),
{
    let dx: i128 = vdot(&m.x_axis, v);
    let dy: i128 = vdot(&m.y_axis, v);
    let dz: i128 = vdot(&m.z_axis, v);
    proof {
        lemma_mul_le(m.x_axis.x as int, v.x as int, ROT_B as int, 2 * (SHAPE_B as int));
        lemma_mul_le(m.x_axis.y as int, v.y as int, ROT_B as int, 2 * (SHAPE_B as int));
        lemma_mul_le(m.x_axis.z as int, v.z as int, ROT_B as int, 2 * (SHAPE_B as int));
        lemma_mul_le(m.y_axis.x as int, v.x as int, ROT_B as int, 2 * (SHAPE_B as int));
        lemma_mul_le(m.y_axis.y as int, v.y as int, ROT_B as int, 2 * (SHAPE_B as int));
        lemma_mul_le(m.y_axis.z as int, v.z as int, ROT_B as int, 2 * (SHAPE_B as int));
        lemma_mul_le(m.z_axis.x as int, v.x as int, ROT_B as int, 2 * (SHAPE_B as int));
        lemma_mul_le(m.z_axis.y as int, v.y as int, ROT_B as int, 2 * (SHAPE_B as int));
        lemma_mul_le(m.z_axis.z as int, v.z as int, ROT_B as int, 2 * (SHAPE_B as int));
        assert(3 * ((ROT_B as int) * (2 * (SHAPE_B as int))) <= (POINT_B as int) * (UNIT as int))
            by (nonlinear_arith);
        lemma_tdivs_bound(dot3(v3(m.x_axis), v3(*v)), UNIT as int, POINT_B as int);
        lemma_tdivs_bound(dot3(v3(m.y_axis), v3(*v)), UNIT as int, POINT_B as int);
        lemma_tdivs_bound(dot3(v3(m.z_axis), v3(*v)), UNIT as int, POINT_B as int);
    }
    let u: i128 = UNIT as i128;
    Vec3 { x: tdiv128(dx, u) as i64, y: tdiv128(dy, u) as i64, z: tdiv128(dz, u) as i64 }
}

/// Exact rotation of a `POINT_B`-bounded vector back into world space.
pub fn mat_mul_vec_wide(m: &Mat3, v: &Vec3) -> (r: Vec3)
    requires
        mat_wf(*m),
        in_b(*v, POINT_B as int),
    ensures
        v3(r) == rotv3(*m, v3(*v)),
        in_b(r, 2 * (CROSS_B as int)),
{
    proof {
        lemma_mul_le(m.x_axis.x as int, v.x as int, ROT_B as int, POINT_B as int);
        lemma_mul_le(m.y_axis.x as int, v.y as int, ROT_B as int, POINT_B as int);
        lemma_mul_le(m.z_axis.x as int, v.z as int, ROT_B as int, POINT_B as int);
        lemma_mul_le(m.x_axis.y as int, v.x as int, ROT_B as int, POINT_B as int);
        lemma_mul_le(m.y_axis.y as int, v.y as int, ROT_B as int, POINT_B as int);
        lemma_mul_le(m.z_axis.y as int, v.z as int, ROT_B as int, POINT_B as int);
        lemma_mul_le(m.x_axis.z as int, v.x as int, ROT_B as int, POINT_B as int);
        lemma_mul_le(m.y_axis.z as int, v.y as int, ROT_B as int, POINT_B as int);
        lemma_mul_le(m.z_axis.z as int, v.z as int, ROT_B as int, POINT_B as int);
        assert(3 * ((ROT_B as int) * (POINT_B as int)) <= 2 * (CROSS_B as int) * (UNIT as int))
            by (nonlinear_arith);
        lemma_tdivs_bound(
            m.x_axis.x * v.x + m.y_axis.x * v.y + m.z_axis.x * v.z,
            UNIT as int,
            2 * (CROSS_B as int),
        );
        lemma_tdivs_bound(
            m.x_axis.y * v.x + m.y_axis.y * v.y + m.z_axis.y * v.z,
            UNIT as int,
            2 * (CROSS_B as int),
        );
        lemma_tdivs_bound(
            m.x_axis.z * v.x + m.y_axis.z * v.y + m.z_axis.z * v.z,
            UNIT as int,
            2 * (CROSS_B as int),
        );
    }
    let sx: i128 = (m.x_axis.x as i128) * (v.x as i128) + (m.y_axis.x as i128) * (v.y as i128)
        + (m.z_axis.x as i128) * (v.z as i128);
    let sy: i128 = (m.x_axis.y as i128) * (v.x as i128) + (m.y_axis.y as i128) * (v.y as i128)
        + (m.z_axis.y as i128) * (v.z as i128);
    let sz: i128 = (m.x_axis.z as i128) * (v.x as i128) + (m.y_axis.z as i128) * (v.y as i128)
        + (m.z_axis.z as i128) * (v.z as i128);
    let u: i128 = UNIT as i128;
    Vec3 { x: tdiv128(sx, u) as i64, y: tdiv128(sy, u) as i64, z: tdiv128(sz, u) as i64 }
}

/// The sphere center in the box's local frame, exactly `local_center3`.
pub fn local_center(b: &BoundingBox, c: &Vec3) -> (r: Vec3)
    requires
        b.wf(),
        in_b(*c, SHAPE_B as int),
    ensures
        v3(r) == local_center3(*b, v3(*c)),
        in_b(r, POINT_B as int),
{
    let d = Vec3 { x: c.x - b.center.x, y: c.y - b.center.y, z: c.z - b.center.z };
    match &b.rotation {
        Some(m) => mat_tmul_vec(m, &d),
        None => d,
    }
}

/// The local offset from the nearest box point to the sphere center,
/// exactly `to_center3`.
pub fn to_center(b: &BoundingBox, s: &Sphere) -> (r: Vec3)
    requires
        b.wf(),
        s.wf(),
    ensures
        v3(r) == to_center3(*b, *s),
        in_b(r, POINT_B as int),
{
    let l = local_center(b, &s.center);
    let ax: i64 = if l.x >= 0 { l.x } else { -l.x };
    let ay: i64 = if l.y >= 0 { l.y } else { -l.y };
    let az: i64 = if l.z >= 0 { l.z } else { -l.z };
    let dx: i64 = ax - b.extents.x;
    let dy: i64 = ay - b.extents.y;
    let dz: i64 = az - b.extents.z;
    let tx: i64 = if dx >= 0 {
        if l.x > 0 { dx } else if l.x < 0 { -dx } else { 0 }
    } else {
        0
    };
    let ty: i64 = if dy >= 0 {
        if l.y > 0 { dy } else if l.y < 0 { -dy } else { 0 }
    } else {
        0
    };
    let tz: i64 = if dz >= 0 {
        if l.z > 0 { dz } else if l.z < 0 { -dz } else { 0 }
    } else {
        0
    };
    Vec3 { x: tx, y: ty, z: tz }
}

} // verus!
