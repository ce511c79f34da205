//! Boxes — axis-aligned and oriented — and the box-vs-box queries: the
//! closed-form AABB fast path and the separating-axis (SAT) engine.
use vstd::prelude::*;

use crate::CollisionDetails;
use crate::math::{
    Mat3, V3, Vec3, abs_i, add3, cross3, dot3, in_b, in_b3, lemma_mul_le, lemma_tdivs_bound,
    tdiv128, tdiv64, tdivs, try_normalize, v3, vcross, vdot, zero3, POINT_B, ROT_B, SHAPE_B, UNIT,
};

verus! {

/// A box given by its world-space `center`, non-negative half-`extents`
/// along its local axes, and an optional rotation basis.  `rotation == None`
/// means the local axes coincide with the world axes (an AABB).
#[derive(Clone, Copy, Debug)]
pub struct BoundingBox {
    pub center: Vec3,
    pub extents: Vec3,
    pub rotation: Option<Mat3>,
}

pub open spec fn mat_wf(m: Mat3) -> bool {
    &&& in_b(m.x_axis, ROT_B as int)
    &&& in_b(m.y_axis, ROT_B as int)
    &&& in_b(m.z_axis, ROT_B as int)
}

pub open spec fn imin(a: int, b: int) -> int {
    if a <= b {
        a
    } else {
        b
    }
}

pub open spec fn imax(a: int, b: int) -> int {
    if a >= b {
        a
    } else {
        b
    }
}

impl BoundingBox {
    /// Well-formedness: coordinates within `SHAPE_B`, extents non-negative,
    /// rotation entries within `ROT_B`.
    pub open spec fn wf(self) -> bool {
        &&& in_b(self.center, SHAPE_B as int)
        &&& 0 <= self.extents.x <= SHAPE_B
        &&& 0 <= self.extents.y <= SHAPE_B
        &&& 0 <= self.extents.z <= SHAPE_B
        &&& match self.rotation {
            Some(m) => mat_wf(m),
            None => true,
        }
    }

    /// An axis-aligned box.  Extents are absolute-valued on ingest.
    pub fn new(center: Vec3, extents: Vec3) -> (r: BoundingBox)
        requires
            in_b(center, SHAPE_B as int),
            in_b(extents, SHAPE_B as int),
        ensures
            r.center == center,
            v3(r.extents) == (V3 {
                x: abs_i(extents.x as int),
                y: abs_i(extents.y as int),
                z: abs_i(extents.z as int),
            }),
            (r.rotation is None),
            r.wf(),
    {
        BoundingBox {
            center,
            extents: Vec3 {
                x: if extents.x >= 0 { extents.x } else { -extents.x },
                y: if extents.y >= 0 { extents.y } else { -extents.y },
                z: if extents.z >= 0 { extents.z } else { -extents.z },
            },
            rotation: None,
        }
    }

    /// An oriented box.  Extents are absolute-valued on ingest.
    pub fn new_rotated(center: Vec3, extents: Vec3, rotation: Mat3) -> (r: BoundingBox)
        requires
            in_b(center, SHAPE_B as int),
            in_b(extents, SHAPE_B as int),
            mat_wf(rotation),
        ensures
            r.center == center,
            v3(r.extents) == (V3 {
                x: abs_i(extents.x as int),
                y: abs_i(extents.y as int),
                z: abs_i(extents.z as int),
            }),
            r.rotation == Some(rotation),
            r.wf(),
    {
        BoundingBox {
            center,
            extents: Vec3 {
                x: if extents.x >= 0 { extents.x } else { -extents.x },
                y: if extents.y >= 0 { extents.y } else { -extents.y },
                z: if extents.z >= 0 { extents.z } else { -extents.z },
            },
            rotation: Some(rotation),
        }
    }

    pub fn set_rotation(&mut self, rotation: Mat3)
        ensures
            final(self).center == old(self).center,
            final(self).extents == old(self).extents,
            final(self).rotation == Some(rotation),
    {
        self.rotation = Some(rotation);
    }

    pub fn rotation(&self) -> (r: Option<Mat3>)
        ensures
            r == self.rotation,
    {
        self.rotation
    }

    pub fn extents(&self) -> (r: Vec3)
        ensures
            r == self.extents,
    {
        self.extents
    }

    pub fn center(&self) -> (r: Vec3)
        ensures
            r == self.center,
    {
        self.center
    }
}

impl Default for BoundingBox {
    /// The degenerate axis-aligned box at the origin.
    fn default() -> (r: BoundingBox)
        ensures
            v3(r.center) == zero3(),
            v3(r.extents) == zero3(),
            (r.rotation is None),
            r.wf(),
    {
        BoundingBox {
            center: Vec3 { x: 0, y: 0, z: 0 },
            extents: Vec3 { x: 0, y: 0, z: 0 },
            rotation: None,
        }
    }
}

/// Corner sign pattern, in the fixed enumeration order used throughout:
/// x alternates every step, y every two, z after four.
pub open spec fn corner_sx(k: int) -> int {
    if k % 2 == 0 {
        1
    } else {
        -1
    }
}

pub open spec fn corner_sy(k: int) -> int {
    if k % 4 <= 1 {
        1
    } else {
        -1
    }
}

pub open spec fn corner_sz(k: int) -> int {
    if k < 4 {
        1
    } else {
        -1
    }
}

/// The local-frame offset of corner `k`: the extents under the sign pattern.
pub open spec fn corner_local(b: BoundingBox, k: int) -> V3 {
    V3 {
        x: corner_sx(k) * b.extents.x,
        y: corner_sy(k) * b.extents.y,
        z: corner_sz(k) * b.extents.z,
    }
}

/// Application of a rotation basis to a local vector: each column scaled by
/// the matching component, summed, and brought back to fixed-point scale.
pub open spec fn rotv3(m: Mat3, v: V3) -> V3 {
    V3 {
        x: tdivs(m.x_axis.x * v.x + m.y_axis.x * v.y + m.z_axis.x * v.z, UNIT as int),
        y: tdivs(m.x_axis.y * v.x + m.y_axis.y * v.y + m.z_axis.y * v.z, UNIT as int),
        z: tdivs(m.x_axis.z * v.x + m.y_axis.z * v.y + m.z_axis.z * v.z, UNIT as int),
    }
}

/// World-space corner `k` of a box.
pub open spec fn corner3(b: BoundingBox, k: int) -> V3 {
    match b.rotation {
        Some(m) => add3(v3(b.center), rotv3(m, corner_local(b, k))),
        None => add3(v3(b.center), corner_local(b, k)),
    }
}

/// Rotation keeps `SHAPE_B`-bounded vectors within `POINT_B - SHAPE_B`.
proof fn lemma_rotv3_bound(m: Mat3, v: V3)
    requires
        mat_wf(m),
        in_b3(v, SHAPE_B as int),
    ensures
        in_b3(rotv3(m, v), (POINT_B - SHAPE_B) as int),
{
    lemma_mul_le(m.x_axis.x as int, v.x, ROT_B as int, SHAPE_B as int);
    lemma_mul_le(m.y_axis.x as int, v.y, ROT_B as int, SHAPE_B as int);
    lemma_mul_le(m.z_axis.x as int, v.z, ROT_B as int, SHAPE_B as int);
    lemma_mul_le(m.x_axis.y as int, v.x, ROT_B as int, SHAPE_B as int);
    lemma_mul_le(m.y_axis.y as int, v.y, ROT_B as int, SHAPE_B as int);
    lemma_mul_le(m.z_axis.y as int, v.z, ROT_B as int, SHAPE_B as int);
    lemma_mul_le(m.x_axis.z as int, v.x, ROT_B as int, SHAPE_B as int);
    lemma_mul_le(m.y_axis.z as int, v.y, ROT_B as int, SHAPE_B as int);
    lemma_mul_le(m.z_axis.z as int, v.z, ROT_B as int, SHAPE_B as int);
    assert(3 * (ROT_B as int) * (SHAPE_B as int) <= (POINT_B - SHAPE_B as int) * (UNIT as int));
    lemma_tdivs_bound(
        m.x_axis.x * v.x + m.y_axis.x * v.y + m.z_axis.x * v.z,
        UNIT as int,
        (POINT_B - SHAPE_B) as int,
    );
    lemma_tdivs_bound(
        m.x_axis.y * v.x + m.y_axis.y * v.y + m.z_axis.y * v.z,
        UNIT as int,
        (POINT_B - SHAPE_B) as int,
    );
    lemma_tdivs_bound(
        m.x_axis.z * v.x + m.y_axis.z * v.y + m.z_axis.z * v.z,
        UNIT as int,
        (POINT_B - SHAPE_B) as int,
    );
}

/// Every corner of a well-formed box lies within `POINT_B`.
pub proof fn lemma_corner_bound(b: BoundingBox, k: int)
    requires
        b.wf(),
    ensures
        in_b3(corner3(b, k), POINT_B as int),
{
    assert(in_b3(corner_local(b, k), SHAPE_B as int)) by {
        lemma_mul_le(corner_sx(k), b.extents.x as int, 1, SHAPE_B as int);
        lemma_mul_le(corner_sy(k), b.extents.y as int, 1, SHAPE_B as int);
        lemma_mul_le(corner_sz(k), b.extents.z as int, 1, SHAPE_B as int);
    }
    match b.rotation {
        Some(m) => {
            lemma_rotv3_bound(m, corner_local(b, k));
        },
        None => {},
    }
}

/// Exact rotation of a local vector, mirroring `rotv3`.
fn mat_mul_vec(m: &Mat3, v: &Vec3) -> (r: Vec3)
    requires
        mat_wf(*m),
        in_b(*v, SHAPE_B as int),
    ensures
        v3(r) == rotv3(*m, v3(*v)),
        in_b(r, (POINT_B - SHAPE_B) as int),
{
    proof {
        lemma_rotv3_bound(*m, v3(*v));
        lemma_mul_le(m.x_axis.x as int, v.x as int, ROT_B as int, SHAPE_B as int);
        lemma_mul_le(m.y_axis.x as int, v.y as int, ROT_B as int, SHAPE_B as int);
        lemma_mul_le(m.z_axis.x as int, v.z as int, ROT_B as int, SHAPE_B as int);
        lemma_mul_le(m.x_axis.y as int, v.x as int, ROT_B as int, SHAPE_B as int);
        lemma_mul_le(m.y_axis.y as int, v.y as int, ROT_B as int, SHAPE_B as int);
        lemma_mul_le(m.z_axis.y as int, v.z as int, ROT_B as int, SHAPE_B as int);
        lemma_mul_le(m.x_axis.z as int, v.x as int, ROT_B as int, SHAPE_B as int);
        lemma_mul_le(m.y_axis.z as int, v.y as int, ROT_B as int, SHAPE_B as int);
        lemma_mul_le(m.z_axis.z as int, v.z as int, ROT_B as int, SHAPE_B as int);
    }
    let sx: i128 = (m.x_axis.x as i128) * (v.x as i128) + (m.y_axis.x as i128) * (v.y as i128)
        + (m.z_axis.x as i128) * (v.z as i128);
    let sy: i128 = (m.x_axis.y as i128) * (v.x as i128) + (m.y_axis.y as i128) * (v.y as i128)
        + (m.z_axis.y as i128) * (v.z as i128);
    let sz: i128 = (m.x_axis.z as i128) * (v.x as i128) + (m.y_axis.z as i128) * (v.y as i128)
        + (m.z_axis.z as i128) * (v.z as i128);
    let u: i128 = UNIT as i128;
    Vec3 {
        x: tdiv128(sx, u) as i64,
        y: tdiv128(sy, u) as i64,
        z: tdiv128(sz, u) as i64,
    }
}

impl BoundingBox {
    /// The three local axes: the rotation's columns, or the world axes.
    pub open spec fn axis3(self, i: int) -> V3 {
        match self.rotation {
            Some(m) => if i == 0 {
                v3(m.x_axis)
            } else if i == 1 {
                v3(m.y_axis)
            } else {
                v3(m.z_axis)
            },
            None => if i == 0 {
                V3 { x: UNIT as int, y: 0, z: 0 }
            } else if i == 1 {
                V3 { x: 0, y: UNIT as int, z: 0 }
            } else {
                V3 { x: 0, y: 0, z: UNIT as int }
            },
        }
    }

    fn get_axes(&self) -> (r: Vec<Vec3>)
        requires
            self.wf(),
        ensures
            r.len() == 3,
            forall|i: int| 0 <= i < 3 ==> v3(#[trigger] r@[i]) == self.axis3(i),
            forall|i: int| 0 <= i < 3 ==> in_b(#[trigger] r@[i], ROT_B as int),
    {
        let mut r: Vec<Vec3> = Vec::new();
        match self.rotation {
            Some(m) => {
                r.push(m.x_axis);
                r.push(m.y_axis);
                r.push(m.z_axis);
            },
            None => {
                r.push(Vec3 { x: UNIT, y: 0, z: 0 });
                r.push(Vec3 { x: 0, y: UNIT, z: 0 });
                r.push(Vec3 { x: 0, y: 0, z: UNIT });
            },
        }
        r
    }

    /// The eight world-space corners, in the fixed sign order.
    pub fn get_vertices(&self) -> (r: Vec<Vec3>)
        requires
            self.wf(),
        ensures
            r.len() == 8,
            forall|k: int| 0 <= k < 8 ==> v3(#[trigger] r@[k]) == corner3(*self, k),
            forall|k: int| 0 <= k < 8 ==> in_b(#[trigger] r@[k], POINT_B as int),
    {
        let mut r: Vec<Vec3> = Vec::new();
        let mut k: usize = 0;
        while k < 8
            invariant
                self.wf(),
                k <= 8,
                r.len() == k,
                forall|j: int| 0 <= j < k ==> v3(#[trigger] r@[j]) == corner3(*self, j),
                forall|j: int| 0 <= j < k ==> in_b(#[trigger] r@[j], POINT_B as int),
            decreases 8 - k,
        {
            let sx: i64 = if k % 2 == 0 { 1 } else { -1 };
            let sy: i64 = if k % 4 <= 1 { 1 } else { -1 };
            let sz: i64 = if k < 4 { 1 } else { -1 };
            proof {
                lemma_mul_le(sx as int, self.extents.x as int, 1, SHAPE_B as int);
                lemma_mul_le(sy as int, self.extents.y as int, 1, SHAPE_B as int);
                lemma_mul_le(sz as int, self.extents.z as int, 1, SHAPE_B as int);
            }
            let local = Vec3 { x: sx * self.extents.x, y: sy * self.extents.y, z: sz * self.extents.z };
            proof {
                assert(v3(local) == corner_local(*self, k as int));
                lemma_corner_bound(*self, k as int);
            }
            let world = match &self.rotation {
                Some(m) => {
                    let rot = mat_mul_vec(m, &local);
                    vadd_point(&self.center, &rot)
                },
                None => vadd_point(&self.center, &local),
            };
            r.push(world);
            k = k + 1;
        }
        r
    }
}

/// Sum of a shape coordinate and a rotated offset, within `POINT_B`.
fn vadd_point(a: &Vec3, b: &Vec3) -> (r: Vec3)
    requires
        in_b(*a, SHAPE_B as int),
        in_b(*b, (POINT_B - SHAPE_B) as int),
    ensures
        v3(r) == add3(v3(*a), v3(*b)),
        in_b(r, POINT_B as int),
{
    Vec3 { x: a.x + b.x, y: a.y + b.y, z: a.z + b.z }
}

// ---------------------------------------------------------------------------
// AABB fast path
// ---------------------------------------------------------------------------

/// Two axis-aligned boxes overlap iff on each world axis the distance of the
/// centers is at most the sum of the extents (touching counts as overlap).
pub open spec fn aabb_overlap(a: BoundingBox, b: BoundingBox) -> bool {
    &&& abs_i(a.center.x - b.center.x) <= a.extents.x + b.extents.x
    &&& abs_i(a.center.y - b.center.y) <= a.extents.y + b.extents.y
    &&& abs_i(a.center.z - b.center.z) <= a.extents.z + b.extents.z
}

/// The signed penetration on world axis `i`: the overlap length, negative
/// when `a`'s center projects below `b`'s.
pub open spec fn aabb_axis_pen(a: BoundingBox, b: BoundingBox, i: int) -> int {
    let dc = if i == 0 {
        a.center.x - b.center.x
    } else if i == 1 {
        a.center.y - b.center.y
    } else {
        a.center.z - b.center.z
    };
    let s = if i == 0 {
        a.extents.x + b.extents.x
    } else if i == 1 {
        a.extents.y + b.extents.y
    } else {
        a.extents.z + b.extents.z
    };
    if dc < 0 {
        -(s - abs_i(dc))
    } else {
        s - abs_i(dc)
    }
}

/// The axis of smallest absolute penetration, earliest index on ties.
pub open spec fn aabb_min_axis(a: BoundingBox, b: BoundingBox) -> int {
    let p0 = abs_i(aabb_axis_pen(a, b, 0));
    let p1 = abs_i(aabb_axis_pen(a, b, 1));
    let p2 = abs_i(aabb_axis_pen(a, b, 2));
    if p0 <= p1 && p0 <= p2 {
        0
    } else if p1 <= p2 {
        1
    } else {
        2
    }
}

/// The world basis vector for axis `i`, at fixed-point unit length.
pub open spec fn unit_axis3(i: int) -> V3 {
    if i == 0 {
        V3 { x: UNIT as int, y: 0, z: 0 }
    } else if i == 1 {
        V3 { x: 0, y: UNIT as int, z: 0 }
    } else {
        V3 { x: 0, y: 0, z: UNIT as int }
    }
}

/// The exact claim of the AABB details query: `None` iff some world axis
/// separates, else the penetration and normal of the least-overlap axis.
pub open spec fn aabb_details_ok(a: BoundingBox, b: BoundingBox, r: Option<CollisionDetails>) -> bool {
    &&& (r is Some <==> aabb_overlap(a, b))
    &&& (r matches Some(cd) ==> {
        let i = aabb_min_axis(a, b);
        let p = aabb_axis_pen(a, b, i);
        &&& cd.penetration == p
        &&& v3(cd.normal) == if p == 0 {
            zero3()
        } else {
            unit_axis3(i)
        }
    })
}

impl BoundingBox {
    /// AABB overlap test; rotations are ignored by this fast path.
    pub fn aabb_collision(&self, other: &BoundingBox) -> (r: bool)
        requires
            self.wf(),
            other.wf(),
        ensures
            r == aabb_overlap(*self, *other),
    {
        let dx: i64 = self.center.x - other.center.x;
        let dy: i64 = self.center.y - other.center.y;
        let dz: i64 = self.center.z - other.center.z;
        let ax: i64 = if dx >= 0 { dx } else { -dx };
        let ay: i64 = if dy >= 0 { dy } else { -dy };
        let az: i64 = if dz >= 0 { dz } else { -dz };
        ax <= self.extents.x + other.extents.x && ay <= self.extents.y + other.extents.y
            && az <= self.extents.z + other.extents.z
    }

    /// AABB details: `None` iff some world axis separates; otherwise the
    /// axis of least absolute overlap, its sign telling which way `self`
    /// must move, and the world basis vector as normal (zero on touching).
    pub fn aabb_collision_details(&self, other: &BoundingBox) -> (r: Option<CollisionDetails>)
        requires
            self.wf(),
            other.wf(),
        ensures
            aabb_details_ok(*self, *other, r),
    {
        let dx: i64 = self.center.x - other.center.x;
        let dy: i64 = self.center.y - other.center.y;
        let dz: i64 = self.center.z - other.center.z;
        let ax: i64 = if dx >= 0 { dx } else { -dx };
        let ay: i64 = if dy >= 0 { dy } else { -dy };
        let az: i64 = if dz >= 0 { dz } else { -dz };
        let sx: i64 = self.extents.x + other.extents.x;
        let sy: i64 = self.extents.y + other.extents.y;
        let sz: i64 = self.extents.z + other.extents.z;
        if ax > sx || ay > sy || az > sz {
            return None;
        }
        let px: i64 = if dx < 0 { -(sx - ax) } else { sx - ax };
        let py: i64 = if dy < 0 { -(sy - ay) } else { sy - ay };
        let pz: i64 = if dz < 0 { -(sz - az) } else { sz - az };
        let qx: i64 = sx - ax;
        let qy: i64 = sy - ay;
        let qz: i64 = sz - az;
        let (pen, axis): (i64, usize) = if qx <= qy && qx <= qz {
            (px, 0)
        } else if qy <= qz {
            (py, 1)
        } else {
            (pz, 2)
        };
        let normal: Vec3 = if pen == 0 {
            Vec3 { x: 0, y: 0, z: 0 }
        } else if axis == 0 {
            Vec3 { x: UNIT, y: 0, z: 0 }
        } else if axis == 1 {
            Vec3 { x: 0, y: UNIT, z: 0 }
        } else {
            Vec3 { x: 0, y: 0, z: UNIT }
        };
        Some(CollisionDetails { normal, penetration: pen })
    }
}

// ---------------------------------------------------------------------------
// SAT engine
// ---------------------------------------------------------------------------

/// Cap on the magnitude of a candidate separating axis: 2^20.
pub const AXIS_B: i64 = 1048576;

/// Cap on the magnitude of a corner projection onto such an axis.
pub const PROJ_B: i128 = 844424930131968;

/// A candidate cross-product axis, brought back to fixed-point unit scale.
pub open spec fn scale_unit3(v: V3) -> V3 {
    V3 {
        x: tdivs(v.x, UNIT as int),
        y: tdivs(v.y, UNIT as int),
        z: tdivs(v.z, UNIT as int),
    }
}

impl BoundingBox {
    /// The 15 SAT candidate axes in their fixed order: the three local axes
    /// of `a`, the three of `b`, then the nine pairwise cross products.
    pub open spec fn sat_axis(a: BoundingBox, b: BoundingBox, k: int) -> V3 {
        if k < 3 {
            a.axis3(k)
        } else if k < 6 {
            b.axis3(k - 3)
        } else {
            scale_unit3(cross3(a.axis3((k - 6) / 3), b.axis3((k - 6) % 3)))
        }
    }

    /// Projection interval ends of a box on an axis, over its eight corners.
    #[verifier::opaque]
    pub open spec fn bproj_min(b: BoundingBox, axis: V3) -> int {
        imin(
            imin(
                imin(
                    imin(
                        imin(
                            imin(
                                imin(dot3(axis, corner3(b, 0)), dot3(axis, corner3(b, 1))),
                                dot3(axis, corner3(b, 2)),
                            ),
                            dot3(axis, corner3(b, 3)),
                        ),
                        dot3(axis, corner3(b, 4)),
                    ),
                    dot3(axis, corner3(b, 5)),
                ),
                dot3(axis, corner3(b, 6)),
            ),
            dot3(axis, corner3(b, 7)),
        )
    }

    #[verifier::opaque]
    pub open spec fn bproj_max(b: BoundingBox, axis: V3) -> int {
        imax(
            imax(
                imax(
                    imax(
                        imax(
                            imax(
                                imax(dot3(axis, corner3(b, 0)), dot3(axis, corner3(b, 1))),
                                dot3(axis, corner3(b, 2)),
                            ),
                            dot3(axis, corner3(b, 3)),
                        ),
                        dot3(axis, corner3(b, 4)),
                    ),
                    dot3(axis, corner3(b, 5)),
                ),
                dot3(axis, corner3(b, 6)),
            ),
            dot3(axis, corner3(b, 7)),
        )
    }

    /// The projection intervals of the two boxes meet on `axis`
    /// (touching counts as overlap).
    pub open spec fn box_overlap_on(a: BoundingBox, b: BoundingBox, axis: V3) -> bool {
        Self::bproj_max(a, axis) >= Self::bproj_min(b, axis) && Self::bproj_max(b, axis)
            >= Self::bproj_min(a, axis)
    }

    /// The signed overlap length on `axis` (meaningful when the intervals
    /// meet): negative when `a`'s interval midpoint lies below `b`'s.
    pub open spec fn box_overlap_len(a: BoundingBox, b: BoundingBox, axis: V3) -> int {
        let mina = Self::bproj_min(a, axis);
        let maxa = Self::bproj_max(a, axis);
        let minb = Self::bproj_min(b, axis);
        let maxb = Self::bproj_max(b, axis);
        let omin = imax(mina, minb);
        let omax = imin(maxa, maxb);
        if maxa + mina < maxb + minb {
            omin - omax
        } else {
            omax - omin
        }
    }

    /// No candidate axis separates: every non-degenerate axis sees the two
    /// projection intervals meet.
    pub open spec fn sat_overlap_all(a: BoundingBox, b: BoundingBox) -> bool {
        forall|k: int|
            0 <= k < 15 ==> (#[trigger] Self::sat_axis(a, b, k) == zero3() || Self::box_overlap_on(
                a,
                b,
                Self::sat_axis(a, b, k),
            ))
    }

    /// Axis `k` is the SAT details winner: non-degenerate, of least absolute
    /// overlap among the non-degenerate axes, and earliest among equals.
    pub open spec fn sat_best_at(a: BoundingBox, b: BoundingBox, k: int) -> bool {
        &&& 0 <= k < 15
        &&& Self::sat_axis(a, b, k) != zero3()
        &&& forall|j: int|
            0 <= j < 15 && #[trigger] Self::sat_axis(a, b, j) != zero3() ==> abs_i(
                Self::box_overlap_len(a, b, Self::sat_axis(a, b, j)),
            ) >= abs_i(Self::box_overlap_len(a, b, Self::sat_axis(a, b, k)))
        &&& forall|j: int|
            0 <= j < k && #[trigger] Self::sat_axis(a, b, j) != zero3() ==> abs_i(
                Self::box_overlap_len(a, b, Self::sat_axis(a, b, j)),
            ) > abs_i(Self::box_overlap_len(a, b, Self::sat_axis(a, b, k)))
    }
}

/// Some non-degenerate candidate axis separates the two boxes.
pub open spec fn sat_separated(a: BoundingBox, b: BoundingBox) -> bool {
    exists|k: int|
        0 <= k < 15 && #[trigger] BoundingBox::sat_axis(a, b, k) != zero3()
            && !BoundingBox::box_overlap_on(a, b, BoundingBox::sat_axis(a, b, k))
}

/// Every candidate axis is degenerate (possible only for collapsed bases).
pub open spec fn sat_degenerate(a: BoundingBox, b: BoundingBox) -> bool {
    forall|k: int| 0 <= k < 15 ==> #[trigger] BoundingBox::sat_axis(a, b, k) == zero3()
}

/// The exact claim of the SAT details query.
pub open spec fn sat_details_ok(a: BoundingBox, b: BoundingBox, r: Option<CollisionDetails>) -> bool {
    &&& ((r is None) <==> (sat_separated(a, b) || sat_degenerate(a, b)))
    &&& (r matches Some(cd) ==> (exists|k: int|
        {
            &&& #[trigger] BoundingBox::sat_best_at(a, b, k)
            &&& cd.penetration == tdivs(
                BoundingBox::box_overlap_len(a, b, BoundingBox::sat_axis(a, b, k)),
                UNIT as int,
            )
            &&& v3(cd.normal) == crate::math::normalize3(BoundingBox::sat_axis(a, b, k))
        }))
}

fn is_zero(v: &Vec3) -> (r: bool)
    ensures
        r <==> v3(*v) == zero3(),
{
    v.x == 0 && v.y == 0 && v.z == 0
}

fn scale_unit(v: &Vec3) -> (r: Vec3)
    requires
        in_b(*v, crate::math::WIDE_B as int),
    ensures
        v3(r) == scale_unit3(v3(*v)),
{
    Vec3 { x: tdiv64(v.x, UNIT), y: tdiv64(v.y, UNIT), z: tdiv64(v.z, UNIT) }
}

/// Bound on a cross product from bounds on its arguments.
proof fn lemma_cross_bound(a: V3, b: V3, ab: int, bb: int)
    requires
        in_b3(a, ab),
        in_b3(b, bb),
        0 <= ab,
        0 <= bb,
    ensures
        in_b3(cross3(a, b), 2 * (ab * bb)),
{
    lemma_mul_le(a.y, b.z, ab, bb);
    lemma_mul_le(a.z, b.y, ab, bb);
    lemma_mul_le(a.z, b.x, ab, bb);
    lemma_mul_le(a.x, b.z, ab, bb);
    lemma_mul_le(a.x, b.y, ab, bb);
    lemma_mul_le(a.y, b.x, ab, bb);
}

/// Bound on a dot product from bounds on its arguments.
proof fn lemma_dot_bound(a: V3, b: V3, ab: int, bb: int)
    requires
        in_b3(a, ab),
        in_b3(b, bb),
        0 <= ab,
        0 <= bb,
    ensures
        -(3 * (ab * bb)) <= dot3(a, b) <= 3 * (ab * bb),
{
    lemma_mul_le(a.x, b.x, ab, bb);
    lemma_mul_le(a.y, b.y, ab, bb);
    lemma_mul_le(a.z, b.z, ab, bb);
}

/// Projection interval ends lie within `PROJ_B` for bounded axes.
proof fn lemma_bproj_bounds(b: BoundingBox, axis: V3)
    requires
        b.wf(),
        in_b3(axis, AXIS_B as int),
    ensures
        -(PROJ_B as int) <= BoundingBox::bproj_min(b, axis) <= PROJ_B as int,
        -(PROJ_B as int) <= BoundingBox::bproj_max(b, axis) <= PROJ_B as int,
{
    reveal(BoundingBox::bproj_min);
    reveal(BoundingBox::bproj_max);
    assert(3 * ((AXIS_B as int) * (POINT_B as int)) == PROJ_B as int) by (nonlinear_arith);
    assert forall|k: int| 0 <= k < 8 implies -(PROJ_B as int) <= #[trigger] dot3(
        axis,
        corner3(b, k),
    ) <= PROJ_B as int by {
        lemma_corner_bound(b, k);
        lemma_dot_bound(axis, corner3(b, k), AXIS_B as int, POINT_B as int);
    }
}

/// The eight world-space corners of a box, materialised once so that many
/// axis projections can reuse them.
pub struct VertexBox {
    pub vertices: Vec<Vec3>,
}

impl VertexBox {
    /// The cache belongs to box `b`: eight corners in the fixed order.
    pub open spec fn of_box(self, b: BoundingBox) -> bool {
        &&& self.vertices@.len() == 8
        &&& forall|k: int| 0 <= k < 8 ==> v3(#[trigger] self.vertices@[k]) == corner3(b, k)
        &&& forall|k: int| 0 <= k < 8 ==> in_b(#[trigger] self.vertices@[k], POINT_B as int)
    }

    /// Materialise the corners of a box.
    pub fn from(boundingbox: &BoundingBox) -> (r: VertexBox)
        requires
            boundingbox.wf(),
        ensures
            r.of_box(*boundingbox),
    {
        VertexBox { vertices: boundingbox.get_vertices() }
    }

    pub fn get_vertices(&self) -> (r: &Vec<Vec3>)
        ensures
            r == &self.vertices,
    {
        &self.vertices
    }

    /// Project all eight corners onto `axis` and return the interval ends.
    fn project_onto_axis(&self, b: Ghost<BoundingBox>, axis: &Vec3) -> (r: (i128, i128))
        requires
            b@.wf(),
            self.of_box(b@),
            in_b(*axis, AXIS_B as int),
        ensures
            r.0 == BoundingBox::bproj_min(b@, v3(*axis)),
            r.1 == BoundingBox::bproj_max(b@, v3(*axis)),
            r.0 <= r.1,
    {
        proof {
            reveal(BoundingBox::bproj_min);
            reveal(BoundingBox::bproj_max);
        }
        let d0: i128 = vdot(axis, &self.vertices[0]);
        let d1: i128 = vdot(axis, &self.vertices[1]);
        let d2: i128 = vdot(axis, &self.vertices[2]);
        let d3: i128 = vdot(axis, &self.vertices[3]);
        let d4: i128 = vdot(axis, &self.vertices[4]);
        let d5: i128 = vdot(axis, &self.vertices[5]);
        let d6: i128 = vdot(axis, &self.vertices[6]);
        let d7: i128 = vdot(axis, &self.vertices[7]);
        let mut mn: i128 = d0;
        let mut mx: i128 = d0;
        if d1 < mn { mn = d1; } if d1 > mx { mx = d1; }
        if d2 < mn { mn = d2; } if d2 > mx { mx = d2; }
        if d3 < mn { mn = d3; } if d3 > mx { mx = d3; }
        if d4 < mn { mn = d4; } if d4 > mx { mx = d4; }
        if d5 < mn { mn = d5; } if d5 > mx { mx = d5; }
        if d6 < mn { mn = d6; } if d6 > mx { mx = d6; }
        if d7 < mn { mn = d7; } if d7 > mx { mx = d7; }
        (mn, mx)
    }

    /// Do the projection intervals of the two caches meet on `axis`?
    fn overlaps_on_axis(
        &self,
        a: Ghost<BoundingBox>,
        other: &VertexBox,
        b: Ghost<BoundingBox>,
        axis: &Vec3,
    ) -> (r: bool)
        requires
            a@.wf(),
            b@.wf(),
            self.of_box(a@),
            other.of_box(b@),
            in_b(*axis, AXIS_B as int),
        ensures
            r == BoundingBox::box_overlap_on(a@, b@, v3(*axis)),
    {
        let (min_a, max_a) = self.project_onto_axis(a, axis);
        let (min_b, max_b) = other.project_onto_axis(b, axis);
        max_a >= min_b && max_b >= min_a
    }

    /// The signed overlap length of the two caches on `axis`, or `None`
    /// when the axis separates them.
    fn overlaps_length_on_axis(
        &self,
        a: Ghost<BoundingBox>,
        other: &VertexBox,
        b: Ghost<BoundingBox>,
        axis: &Vec3,
    ) -> (r: Option<i128>)
        requires
            a@.wf(),
            b@.wf(),
            self.of_box(a@),
            other.of_box(b@),
            in_b(*axis, AXIS_B as int),
        ensures
            r is Some <==> BoundingBox::box_overlap_on(a@, b@, v3(*axis)),
            r matches Some(p) ==> p == BoundingBox::box_overlap_len(a@, b@, v3(*axis)),
            r matches Some(p) ==> -(4 * (PROJ_B as int)) <= p <= 4 * (PROJ_B as int),
    {
        proof {
            lemma_bproj_bounds(a@, v3(*axis));
            lemma_bproj_bounds(b@, v3(*axis));
        }
        let (min_a, max_a) = self.project_onto_axis(a, axis);
        let (min_b, max_b) = other.project_onto_axis(b, axis);
        let omin: i128 = if min_a >= min_b { min_a } else { min_b };
        let omax: i128 = if max_a <= max_b { max_a } else { max_b };
        if omin <= omax {
            if max_a + min_a < max_b + min_b {
                Some(omin - omax)
            } else {
                Some(omax - omin)
            }
        } else {
            None
        }
    }
}

/// The 15 candidate axes, in order, within `AXIS_B`.
fn build_sat_axes(a: &BoundingBox, b: &BoundingBox) -> (r: Vec<Vec3>)
    requires
        a.wf(),
        b.wf(),
    ensures
        r.len() == 15,
        forall|k: int| 0 <= k < 15 ==> v3(#[trigger] r@[k]) == BoundingBox::sat_axis(*a, *b, k),
        forall|k: int| 0 <= k < 15 ==> in_b(#[trigger] r@[k], AXIS_B as int),
{
    let axes_a = a.get_axes();
    let axes_b = b.get_axes();
    let mut r: Vec<Vec3> = Vec::new();
    r.push(axes_a[0]);
    r.push(axes_a[1]);
    r.push(axes_a[2]);
    r.push(axes_b[0]);
    r.push(axes_b[1]);
    r.push(axes_b[2]);
    let mut i: usize = 0;
    while i < 3
        invariant
            a.wf(),
            b.wf(),
            i <= 3,
            axes_a.len() == 3,
            axes_b.len() == 3,
            forall|t: int| 0 <= t < 3 ==> v3(#[trigger] axes_a@[t]) == a.axis3(t),
            forall|t: int| 0 <= t < 3 ==> in_b(#[trigger] axes_a@[t], ROT_B as int),
            forall|t: int| 0 <= t < 3 ==> v3(#[trigger] axes_b@[t]) == b.axis3(t),
            forall|t: int| 0 <= t < 3 ==> in_b(#[trigger] axes_b@[t], ROT_B as int),
            r.len() == 6 + 3 * i,
            forall|k: int|
                0 <= k < 6 + 3 * i ==> v3(#[trigger] r@[k]) == BoundingBox::sat_axis(*a, *b, k),
            forall|k: int| 0 <= k < 6 + 3 * i ==> in_b(#[trigger] r@[k], AXIS_B as int),
        decreases 3 - i,
    {
        let mut j: usize = 0;
        while j < 3
            invariant
                a.wf(),
                b.wf(),
                i < 3,
                j <= 3,
                axes_a.len() == 3,
                axes_b.len() == 3,
                forall|t: int| 0 <= t < 3 ==> v3(#[trigger] axes_a@[t]) == a.axis3(t),
                forall|t: int| 0 <= t < 3 ==> in_b(#[trigger] axes_a@[t], ROT_B as int),
                forall|t: int| 0 <= t < 3 ==> v3(#[trigger] axes_b@[t]) == b.axis3(t),
                forall|t: int| 0 <= t < 3 ==> in_b(#[trigger] axes_b@[t], ROT_B as int),
                r.len() == 6 + 3 * i + j,
                forall|k: int|
                    0 <= k < 6 + 3 * i + j ==> v3(#[trigger] r@[k]) == BoundingBox::sat_axis(
                        *a,
                        *b,
                        k,
                    ),
                forall|k: int| 0 <= k < 6 + 3 * i + j ==> in_b(#[trigger] r@[k], AXIS_B as int),
            decreases 3 - j,
        {
            let c = vcross(&axes_a[i], &axes_b[j]);
            proof {
                assert(2 * ((ROT_B as int) * (ROT_B as int)) <= (AXIS_B as int) * (UNIT as int))
                    by (nonlinear_arith);
                lemma_cross_bound(v3(axes_a@[i as int]), v3(axes_b@[j as int]), ROT_B as int, ROT_B as int);
                lemma_tdivs_bound(cross3(v3(axes_a@[i as int]), v3(axes_b@[j as int])).x, UNIT as int, AXIS_B as int);
                lemma_tdivs_bound(cross3(v3(axes_a@[i as int]), v3(axes_b@[j as int])).y, UNIT as int, AXIS_B as int);
                lemma_tdivs_bound(cross3(v3(axes_a@[i as int]), v3(axes_b@[j as int])).z, UNIT as int, AXIS_B as int);
            }
            let sc = scale_unit(&c);
            proof {
                let k = 6 + 3 * (i as int) + (j as int);
                assert((k - 6) / 3 == i as int && (k - 6) % 3 == j as int);
                assert(v3(sc) == BoundingBox::sat_axis(*a, *b, k));
            }
            r.push(sc);
            j = j + 1;
        }
        i = i + 1;
    }
    r
}

impl BoundingBox {
    /// SAT intersection test for oriented boxes: the boxes meet iff no
    /// candidate axis separates their corner projections.
    pub fn obb_collision(&self, other: &BoundingBox) -> (r: bool)
        requires
            self.wf(),
            other.wf(),
        ensures
            r == Self::sat_overlap_all(*self, *other),
    {
        let axes = build_sat_axes(self, other);
        let vbox1 = VertexBox::from(self);
        let vbox2 = VertexBox::from(other);
        let mut k: usize = 0;
        while k < 15
            invariant
                self.wf(),
                other.wf(),
                k <= 15,
                axes.len() == 15,
                forall|t: int|
                    0 <= t < 15 ==> v3(#[trigger] axes@[t]) == Self::sat_axis(*self, *other, t),
                forall|t: int| 0 <= t < 15 ==> in_b(#[trigger] axes@[t], AXIS_B as int),
                vbox1.of_box(*self),
                vbox2.of_box(*other),
                forall|t: int|
                    0 <= t < k ==> (#[trigger] Self::sat_axis(*self, *other, t) == zero3()
                        || Self::box_overlap_on(*self, *other, Self::sat_axis(*self, *other, t))),
            decreases 15 - k,
        {
            let axis = axes[k];
            if !is_zero(&axis) {
                if !vbox1.overlaps_on_axis(Ghost(*self), &vbox2, Ghost(*other), &axis) {
                    return false;
                }
            }
            k = k + 1;
        }
        true
    }

    /// SAT details: `None` iff some non-degenerate axis separates the boxes
    /// or every candidate axis is degenerate; otherwise the winning axis's
    /// normalised direction and its signed overlap, in fixed-point units.
    #[verifier::rlimit(100)]
    pub fn obb_collision_details(&self, other: &BoundingBox) -> (r: Option<CollisionDetails>)
        requires
            self.wf(),
            other.wf(),
        ensures
            sat_details_ok(*self, *other, r),
    {
        let axes = build_sat_axes(self, other);
        let vbox1 = VertexBox::from(self);
        let vbox2 = VertexBox::from(other);
        let mut found = false;
        let mut best_pen: i128 = 0;
        let mut best_axis: Vec3 = Vec3 { x: 0, y: 0, z: 0 };
        let ghost mut best_k: int = 0;
        let mut k: usize = 0;
        while k < 15
            invariant
                self.wf(),
                other.wf(),
                k <= 15,
                axes.len() == 15,
                forall|t: int|
                    0 <= t < 15 ==> v3(#[trigger] axes@[t]) == Self::sat_axis(*self, *other, t),
                forall|t: int| 0 <= t < 15 ==> in_b(#[trigger] axes@[t], AXIS_B as int),
                vbox1.of_box(*self),
                vbox2.of_box(*other),
                forall|t: int|
                    0 <= t < k && #[trigger] Self::sat_axis(*self, *other, t) != zero3()
                        ==> Self::box_overlap_on(*self, *other, Self::sat_axis(*self, *other, t)),
                !found ==> forall|t: int|
                    0 <= t < k ==> #[trigger] Self::sat_axis(*self, *other, t) == zero3(),
                !found ==> best_pen == 0,
                found ==> -(4 * (PROJ_B as int)) <= best_pen <= 4 * (PROJ_B as int),
                found ==> {
                    &&& 0 <= best_k < k
                    &&& Self::sat_axis(*self, *other, best_k) != zero3()
                    &&& v3(best_axis) == Self::sat_axis(*self, *other, best_k)
                    &&& in_b(best_axis, AXIS_B as int)
                    &&& best_pen == Self::box_overlap_len(
                        *self,
                        *other,
                        Self::sat_axis(*self, *other, best_k),
                    )
                    &&& forall|t: int|
                        0 <= t < k && #[trigger] Self::sat_axis(*self, *other, t) != zero3()
                            ==> abs_i(
                            Self::box_overlap_len(*self, *other, Self::sat_axis(*self, *other, t)),
                        ) >= abs_i(best_pen as int)
                    &&& forall|t: int|
                        0 <= t < best_k && #[trigger] Self::sat_axis(*self, *other, t) != zero3()
                            ==> abs_i(
                            Self::box_overlap_len(*self, *other, Self::sat_axis(*self, *other, t)),
                        ) > abs_i(best_pen as int)
                },
            decreases 15 - k,
        {
            let axis = axes[k];
            if !is_zero(&axis) {
                match vbox1.overlaps_length_on_axis(Ghost(*self), &vbox2, Ghost(*other), &axis) {
                    None => {
                        return None;
                    },
                    Some(p) => {
                        let ap: i128 = if p >= 0 { p } else { -p };
                        let bp: i128 = if best_pen >= 0 { best_pen } else { -best_pen };
                        if !found || ap < bp {
                            found = true;
                            best_pen = p;
                            best_axis = axis;
                            proof {
                                best_k = k as int;
                            }
                        }
                    },
                }
            }
            k = k + 1;
        }
        if !found {
            return None;
        }
        proof {
            assert(Self::sat_best_at(*self, *other, best_k));
            assert(4 * (PROJ_B as int) <= (UNIT as int) * (PROJ_B as int)) by (nonlinear_arith);
            lemma_tdivs_bound(best_pen as int, UNIT as int, PROJ_B as int);
        }
        let pen64: i64 = tdiv128(best_pen, UNIT as i128) as i64;
        let normal: Vec3 = match try_normalize(&best_axis) {
            Some(u) => u,
            None => {
                proof {
                    assert(false);
                }
                Vec3 { x: 0, y: 0, z: 0 }
            },
        };
        Some(CollisionDetails { normal, penetration: pen64 })
    }
}

} // verus!
