//! The convex-hull protocol — a support-function capability shared by all
//! shapes — and the GJK and EPA engines built on nothing but that capability.
use vstd::prelude::*;

use crate::bounds::{corner3, BoundingBox};
use crate::math::{
    cross3, dot3, in_b, lemma_cross3_antisym, lemma_mul_le, lemma_norm2_zero,
    lemma_sqrt_floor_ge, lemma_tdivs_bound, neg3, norm2_3, normalize3, shrink, shrink3,
    sqrt_floor, sub3, tdiv128, tdivs, try_normalize, v3, vcross, vdot, vneg, vsub, zero3, isqrt64,
    Vec3, V3, CROSS_B, MINK_B, POINT_B, SHAPE_B, UNIT,
};
use crate::sphere::Sphere;
use crate::CollisionDetails;

verus! {

/// GJK gives up after this many tetrahedron refinements, reporting no
/// collision; a safeguard against cycling on degenerate geometry.
pub const GJK_MAX_ITERS: u64 = 64;

/// EPA stops expanding after this many iterations and reports the best
/// tentative result gathered so far.
pub const EPA_MAX_ITERS: u64 = 64;

/// EPA convergence tolerance in fixed-point units (about 1e-4 world units).
pub const EPA_EPS: i64 = 7;

/// The deterministic direction clean-up used by GJK: scale into range, then
/// to unit length; the zero vector stays zero.
pub open spec fn dirn3(v: V3) -> V3 {
    let s = shrink3(v);
    if s == zero3() {
        zero3()
    } else {
        normalize3(s)
    }
}

/// Scale a probe direction into range and normalise it (zero stays zero).
pub fn dir_normalize(v: &Vec3) -> (r: Vec3)
    requires
        in_b(*v, crate::math::WIDE_B as int),
    ensures
        v3(r) == dirn3(v3(*v)),
        in_b(r, UNIT as int),
{
    let s = shrink(v);
    match try_normalize(&s) {
        Some(u) => u,
        None => Vec3 { x: 0, y: 0, z: 0 },
    }
}

fn is_zero(v: &Vec3) -> (r: bool)
    ensures
        r <==> v3(*v) == zero3(),
{
    v.x == 0 && v.y == 0 && v.z == 0
}

/// The exact value every shape's support function returns: the best corner
/// of a box under the later-wins fold, or the scaled direction for a sphere.
pub open spec fn better3(dir: V3, cand: V3, cur: V3) -> V3 {
    if dot3(dir, cand) >= dot3(dir, cur) {
        cand
    } else {
        cur
    }
}

pub open spec fn box_support_upto(b: BoundingBox, dir: V3, k: int) -> V3
    decreases k,
{
    if k <= 0 {
        corner3(b, 0)
    } else {
        better3(dir, corner3(b, k), box_support_upto(b, dir, k - 1))
    }
}

/// The corner of a box farthest along `dir` (the last corner on ties).
pub open spec fn box_support3(b: BoundingBox, dir: V3) -> V3 {
    box_support_upto(b, dir, 7)
}

/// The point of a sphere farthest along `dir`: the center pushed one radius
/// along the direction (the center itself for a zero direction).
pub open spec fn sphere_support3(s: Sphere, dir: V3) -> V3 {
    if dir == zero3() {
        v3(s.center)
    } else {
        let l = sqrt_floor(norm2_3(dir));
        V3 {
            x: s.center.x + tdivs(dir.x * s.radius, l),
            y: s.center.y + tdivs(dir.y * s.radius, l),
            z: s.center.z + tdivs(dir.z * s.radius, l),
        }
    }
}

/// A shape that exposes its support function: the point of the shape
/// farthest along a given direction.  GJK and EPA see shapes only through
/// this one capability.
pub trait ConvexHull: Sized {
    /// The arithmetic bounds under which the support function is exact.
    spec fn hull_wf(&self) -> bool;

    /// The exact point the support function returns for each direction.
    spec fn furthest_spec(&self, dir: V3) -> V3;

    /// The point of the shape farthest along `direction` (which need not be
    /// of unit length).
    fn get_furthest_point(&self, direction: &Vec3) -> (r: Vec3)
        requires
            self.hull_wf(),
            in_b(*direction, CROSS_B as int),
        ensures
            v3(r) == self.furthest_spec(v3(*direction)),
            in_b(r, POINT_B as int),
    ;

}

/// The Minkowski-difference support of `a` against `b` along `dir`.
pub open spec fn mink_support3<A: ConvexHull, B: ConvexHull>(a: A, b: B, dir: V3) -> V3 {
    sub3(a.furthest_spec(dir), b.furthest_spec(neg3(dir)))
}

/// `p` is a support point of the Minkowski difference of `a` and `b`:
/// it was produced by some probe direction.
pub open spec fn is_mink_point<A: ConvexHull, B: ConvexHull>(a: A, b: B, p: V3) -> bool {
    exists|d: V3| p == #[trigger] mink_support3(a, b, d)
}

/// One Minkowski support probe.
pub fn get_support<A: ConvexHull, B: ConvexHull>(a: &A, b: &B, direction: &Vec3) -> (r: Vec3)
    requires
        a.hull_wf(),
        b.hull_wf(),
        in_b(*direction, CROSS_B as int),
    ensures
        v3(r) == mink_support3(*a, *b, v3(*direction)),
        is_mink_point(*a, *b, v3(r)),
        in_b(r, MINK_B as int),
{
    let nd = vneg(direction);
    let pa = a.get_furthest_point(direction);
    let pb = b.get_furthest_point(&nd);
    let r = vsub(&pa, &pb);
    proof {
        assert(v3(r) == mink_support3(*a, *b, v3(*direction)));
    }
    r
}

/// Up to four points of the Minkowski difference with a validity count.
/// With `count == 4` the first three vertices form the base triangle and the
/// fourth is the apex; the base normal points away from the origin.
pub struct Simplex {
    pub vertices: Vec<Vec3>,
    pub count: usize,
}

/// The exact origin-containment test GJK ends on: for each of the three
/// side faces of the tetrahedron, the origin does not lie strictly outside
/// its supporting plane (degenerate faces pass vacuously).
pub open spec fn side_face_ok(s: Seq<Vec3>, i0: int, i1: int, i2: int) -> bool {
    let n = cross3(sub3(v3(s[i1]), v3(s[i0])), sub3(v3(s[i2]), v3(s[i0])));
    n == zero3() || dot3(n, v3(s[i0])) >= 0
}

pub open spec fn simplex_contains_origin(s: Seq<Vec3>) -> bool {
    &&& side_face_ok(s, 3, 1, 0)
    &&& side_face_ok(s, 3, 2, 1)
    &&& side_face_ok(s, 3, 0, 2)
}

/// The face data EPA derives from three polytope points: the normalised
/// normal of the triangle and its fixed-point distance from the origin, or
/// `None` when the triangle is degenerate.
pub open spec fn face_data3(p0: V3, p1: V3, p2: V3) -> Option<(V3, int)> {
    let nr = cross3(sub3(p1, p0), sub3(p2, p0));
    let sh = shrink3(nr);
    if sh == zero3() {
        None
    } else {
        let nh = normalize3(sh);
        Some((nh, tdivs(dot3(nh, p0), UNIT as int)))
    }
}

/// A planar triangle of the EPA polytope: three vertex indices, the outward
/// unit normal, and the signed distance of the plane from the origin.
#[derive(Clone, Copy, Debug)]
pub struct Face {
    pub i0: usize,
    pub i1: usize,
    pub i2: usize,
    pub normal: Vec3,
    pub distance: i64,
}

impl Face {
    /// The face agrees with `face_data3` of its polytope vertices.
    pub open spec fn wf_for(self, p: Seq<Vec3>) -> bool {
        &&& self.i0 < p.len()
        &&& self.i1 < p.len()
        &&& self.i2 < p.len()
        &&& face_data3(v3(p[self.i0 as int]), v3(p[self.i1 as int]), v3(p[self.i2 as int]))
            == Some((v3(self.normal), self.distance as int))
        &&& in_b(self.normal, UNIT as int)
        &&& -(3 * (MINK_B as int)) <= self.distance <= 3 * (MINK_B as int)
    }
}

/// Build the face over three polytope indices; `None` for a degenerate
/// (zero cross product) triangle.
fn make_face(polytope: &Vec<Vec3>, i0: usize, i1: usize, i2: usize) -> (r: Option<Face>)
    requires
        i0 < polytope.len(),
        i1 < polytope.len(),
        i2 < polytope.len(),
        forall|k: int| 0 <= k < polytope.len() ==> in_b(#[trigger] polytope@[k], MINK_B as int),
    ensures
        r is Some <==> (face_data3(
            v3(polytope@[i0 as int]),
            v3(polytope@[i1 as int]),
            v3(polytope@[i2 as int]),
        ) is Some),
        r matches Some(f) ==> f.i0 == i0 && f.i1 == i1 && f.i2 == i2 && f.wf_for(polytope@),
{
    let p0 = polytope[i0];
    let p1 = polytope[i1];
    let p2 = polytope[i2];
    let e1 = vsub(&p1, &p0);
    let e2 = vsub(&p2, &p0);
    let nr = vcross(&e1, &e2);
    let sh = shrink(&nr);
    match try_normalize(&sh) {
        None => None,
        Some(nh) => {
            let d128: i128 = vdot(&nh, &p0);
            proof {
                lemma_mul_le(nh.x as int, p0.x as int, UNIT as int, MINK_B as int);
                lemma_mul_le(nh.y as int, p0.y as int, UNIT as int, MINK_B as int);
                lemma_mul_le(nh.z as int, p0.z as int, UNIT as int, MINK_B as int);
                assert(3 * ((UNIT as int) * (MINK_B as int)) == (UNIT as int) * (3 * (MINK_B
                    as int))) by (nonlinear_arith);
                lemma_tdivs_bound(dot3(v3(nh), v3(p0)), UNIT as int, 3 * (MINK_B as int));
            }
            let dist: i64 = tdiv128(d128, UNIT as i128) as i64;
            Some(Face { i0, i1, i2, normal: nh, distance: dist })
        },
    }
}

/// The seed probe direction GJK starts from: the world X axis.
pub open spec fn seed3() -> V3 {
    V3 { x: UNIT as int, y: 0, z: 0 }
}

/// The simplex orientation invariant: the base triangle's normal points away
/// from the origin (its plane offset along the normal is non-negative).
pub open spec fn base_oriented(s: Seq<Vec3>) -> bool {
    dot3(cross3(sub3(v3(s[1]), v3(s[0])), sub3(v3(s[2]), v3(s[0]))), v3(s[0])) >= 0
}

/// The exact outward normal of side face `w` of the tetrahedron, for the
/// three side faces (3,1,0), (3,2,1), (3,0,2) in their fixed order.
pub open spec fn gjk_side_n(s: Seq<Vec3>, w: int) -> V3 {
    if w == 0 {
        cross3(sub3(v3(s[1]), v3(s[3])), sub3(v3(s[0]), v3(s[3])))
    } else if w == 1 {
        cross3(sub3(v3(s[2]), v3(s[3])), sub3(v3(s[1]), v3(s[3])))
    } else {
        cross3(sub3(v3(s[0]), v3(s[3])), sub3(v3(s[2]), v3(s[3])))
    }
}

/// The origin lies strictly outside side face `w`.
pub open spec fn gjk_side_outside(s: Seq<Vec3>, w: int) -> bool {
    gjk_side_n(s, w) != zero3() && dot3(gjk_side_n(s, w), v3(s[3])) < 0
}

/// The normalised plane offset of side face `w`: the fixed-point depth the
/// refinement step ranks the outside faces by (larger is nearer the origin,
/// since outside faces have negative offsets).
pub open spec fn gjk_probe_depth(s: Seq<Vec3>, w: int) -> int {
    tdivs(dot3(dirn3(gjk_side_n(s, w)), v3(s[3])), UNIT as int)
}

/// The four starting faces of the EPA polytope, over the given simplex
/// points, are all degenerate.
pub open spec fn epa_degenerate_at<A: ConvexHull, B: ConvexHull>(
    a: A,
    b: B,
    p0: V3,
    p1: V3,
    p2: V3,
    p3: V3,
) -> bool {
    &&& is_mink_point(a, b, p0)
    &&& is_mink_point(a, b, p1)
    &&& is_mink_point(a, b, p2)
    &&& is_mink_point(a, b, p3)
    &&& (face_data3(p0, p1, p2) is None)
    &&& (face_data3(p3, p1, p0) is None)
    &&& (face_data3(p3, p2, p1) is None)
    &&& (face_data3(p3, p0, p2) is None)
}

pub open spec fn epa_degenerate_start<A: ConvexHull, B: ConvexHull>(a: A, b: B) -> bool {
    exists|p0: V3, p1: V3, p2: V3, p3: V3| #[trigger] epa_degenerate_at(a, b, p0, p1, p2, p3)
}

/// `cd` reports face `m` of the face list `fs` over the polytope points
/// `ps`: every face is well-formed over Minkowski support points, face `m`
/// is the one nearest the origin (least distance, earliest on ties), and
/// `cd` carries its negated normal and its distance.
pub open spec fn epa_face_report_at<A: ConvexHull, B: ConvexHull>(
    a: A,
    b: B,
    cd: CollisionDetails,
    fs: Seq<Face>,
    ps: Seq<Vec3>,
    m: int,
) -> bool {
    &&& 0 <= m < fs.len()
    &&& forall|i: int| 0 <= i < fs.len() ==> (#[trigger] fs[i]).wf_for(ps)
    &&& forall|k: int| 0 <= k < ps.len() ==> is_mink_point(a, b, v3(#[trigger] ps[k]))
    &&& forall|i: int| 0 <= i < fs.len() ==> fs[m].distance <= (#[trigger] fs[i]).distance
    &&& forall|i: int| 0 <= i < m ==> fs[m].distance < (#[trigger] fs[i]).distance
    &&& v3(cd.normal) == neg3(v3(fs[m].normal))
    &&& cd.penetration == fs[m].distance
}

pub open spec fn epa_face_report<A: ConvexHull, B: ConvexHull>(
    a: A,
    b: B,
    cd: CollisionDetails,
) -> bool {
    exists|fs: Seq<Face>, ps: Seq<Vec3>, m: int| #[trigger] epa_face_report_at(a, b, cd, fs, ps, m)
}

/// The claim `gjk_epa` makes of every reported collision: the zero report,
/// and then only for an exact touch (the origin is itself a Minkowski
/// support point) or a fully degenerate starting polytope; otherwise the
/// report of the nearest face of an EPA face list over Minkowski support
/// points, with the normal negated so that it points from the second shape
/// toward the first.
pub open spec fn epa_result_ok<A: ConvexHull, B: ConvexHull>(
    a: A,
    b: B,
    cd: CollisionDetails,
) -> bool {
    ||| (cd.penetration == 0 && v3(cd.normal) == zero3() && is_mink_point(a, b, zero3()))
    ||| (cd.penetration == 0 && v3(cd.normal) == zero3() && epa_degenerate_start(a, b))
    ||| epa_face_report(a, b, cd)
}

impl ConvexHull for BoundingBox {
    open spec fn hull_wf(&self) -> bool {
        self.wf()
    }

    open spec fn furthest_spec(&self, dir: V3) -> V3 {
        box_support3(*self, dir)
    }

    /// The corner with the greatest projection on `direction`
    /// (the last such corner on ties).
    fn get_furthest_point(&self, direction: &Vec3) -> (r: Vec3)
        ensures
            v3(r) == self.furthest_spec(v3(*direction)),
            in_b(r, POINT_B as int),
    {
        let vs = self.get_vertices();
        let mut cur: Vec3 = vs[0];
        let mut bestd: i128 = vdot(direction, &vs[0]);
        let mut k: usize = 1;
        while k < 8
            invariant
                self.wf(),
                in_b(*direction, CROSS_B as int),
                vs.len() == 8,
                forall|j: int| 0 <= j < 8 ==> v3(#[trigger] vs@[j]) == corner3(*self, j),
                forall|j: int| 0 <= j < 8 ==> in_b(#[trigger] vs@[j], POINT_B as int),
                1 <= k <= 8,
                v3(cur) == box_support_upto(*self, v3(*direction), k - 1),
                in_b(cur, POINT_B as int),
                bestd == dot3(v3(*direction), v3(cur)),
            decreases 8 - k,
    {
            let d: i128 = vdot(direction, &vs[k]);
            if d >= bestd {
                cur = vs[k];
                bestd = d;
            }
            k = k + 1;
        }
        cur
    }
}

impl ConvexHull for Sphere {
    open spec fn hull_wf(&self) -> bool {
        self.wf()
    }

    open spec fn furthest_spec(&self, dir: V3) -> V3 {
        sphere_support3(*self, dir)
    }

    /// The center pushed one radius along `direction` (of any length).
    fn get_furthest_point(&self, direction: &Vec3) -> (r: Vec3)
        ensures
            v3(r) == self.furthest_spec(v3(*direction)),
            in_b(r, POINT_B as int),
    {
        let n2: i128 = vdot(direction, direction);
        proof {
            lemma_mul_le(direction.x as int, direction.x as int, CROSS_B as int, CROSS_B as int);
            lemma_mul_le(direction.y as int, direction.y as int, CROSS_B as int, CROSS_B as int);
            lemma_mul_le(direction.z as int, direction.z as int, CROSS_B as int, CROSS_B as int);
            assert((direction.x as int) * (direction.x as int) >= 0) by (nonlinear_arith);
            assert((direction.y as int) * (direction.y as int) >= 0) by (nonlinear_arith);
            assert((direction.z as int) * (direction.z as int) >= 0) by (nonlinear_arith);
        }
        let l: i64 = isqrt64(n2 as u64) as i64;
        if l == 0 {
            proof {
                assert(((0int) + 1) * ((0int) + 1) == 1) by (nonlinear_arith);
                assert(n2 == 0);
                lemma_norm2_zero(v3(*direction));
            }
            self.center
        } else {
            proof {
                assert(v3(*direction) != zero3()) by {
                    if v3(*direction) == zero3() {
                        assert(norm2_3(v3(*direction)) == 0);
                        assert(((0int) + 1) * ((0int) + 1) == 1) by (nonlinear_arith);
                        assert((0int) * (0int) <= 0);
                        crate::math::lemma_sqrt_floor_is(0, 0);
                    }
                }
                assert((-(direction.x as int)) * (-(direction.x as int)) == (direction.x as int)
                    * (direction.x as int)) by (nonlinear_arith);
                assert((-(direction.y as int)) * (-(direction.y as int)) == (direction.y as int)
                    * (direction.y as int)) by (nonlinear_arith);
                assert((-(direction.z as int)) * (-(direction.z as int)) == (direction.z as int)
                    * (direction.z as int)) by (nonlinear_arith);
                lemma_sqrt_floor_ge(crate::math::abs_i(direction.x as int), n2 as int);
                lemma_sqrt_floor_ge(crate::math::abs_i(direction.y as int), n2 as int);
                lemma_sqrt_floor_ge(crate::math::abs_i(direction.z as int), n2 as int);
                lemma_mul_le(direction.x as int, self.radius as int, CROSS_B as int, SHAPE_B as int);
                lemma_mul_le(direction.y as int, self.radius as int, CROSS_B as int, SHAPE_B as int);
                lemma_mul_le(direction.z as int, self.radius as int, CROSS_B as int, SHAPE_B as int);
                assert(crate::math::abs_i(direction.x as int) * (self.radius as int) <= (l as int)
                    * (self.radius as int)) by (nonlinear_arith)
                    requires
                        crate::math::abs_i(direction.x as int) <= l as int,
                        (self.radius as int) >= 0,
                ;
                assert(crate::math::abs_i(direction.y as int) * (self.radius as int) <= (l as int)
                    * (self.radius as int)) by (nonlinear_arith)
                    requires
                        crate::math::abs_i(direction.y as int) <= l as int,
                        (self.radius as int) >= 0,
                ;
                assert(crate::math::abs_i(direction.z as int) * (self.radius as int) <= (l as int)
                    * (self.radius as int)) by (nonlinear_arith)
                    requires
                        crate::math::abs_i(direction.z as int) <= l as int,
                        (self.radius as int) >= 0,
                ;
                assert(direction.x as int * (self.radius as int) <= crate::math::abs_i(
                    direction.x as int,
                ) * (self.radius as int) && -(crate::math::abs_i(direction.x as int) * (
                self.radius as int)) <= direction.x as int * (self.radius as int))
                    by (nonlinear_arith)
                    requires
                        (self.radius as int) >= 0,
                ;
                assert(direction.y as int * (self.radius as int) <= crate::math::abs_i(
                    direction.y as int,
                ) * (self.radius as int) && -(crate::math::abs_i(direction.y as int) * (
                self.radius as int)) <= direction.y as int * (self.radius as int))
                    by (nonlinear_arith)
                    requires
                        (self.radius as int) >= 0,
                ;
                assert(direction.z as int * (self.radius as int) <= crate::math::abs_i(
                    direction.z as int,
                ) * (self.radius as int) && -(crate::math::abs_i(direction.z as int) * (
                self.radius as int)) <= direction.z as int * (self.radius as int))
                    by (nonlinear_arith)
                    requires
                        (self.radius as int) >= 0,
                ;
                lemma_tdivs_bound(direction.x as int * (self.radius as int), l as int, self.radius as int);
                lemma_tdivs_bound(direction.y as int * (self.radius as int), l as int, self.radius as int);
                lemma_tdivs_bound(direction.z as int * (self.radius as int), l as int, self.radius as int);
            }
            let px: i64 = self.center.x + tdiv128((direction.x as i128) * (self.radius as i128), l as i128) as i64;
            let py: i64 = self.center.y + tdiv128((direction.y as i128) * (self.radius as i128), l as i128) as i64;
            let pz: i64 = self.center.z + tdiv128((direction.z as i128) * (self.radius as i128), l as i128) as i64;
            Vec3 { x: px, y: py, z: pz }
        }
    }
}

/// The probe step of GJK's refinement, over the current tetrahedron: `None`
/// when the origin passes the exact containment test; otherwise the outside
/// side face whose plane lies nearest the origin (judged on normalised probe
/// depths, the earliest face on ties), returned as the normalised probe
/// direction, the two vertices the replacement simplex keeps, and the face's
/// exact outward normal.
fn get_nearest_if_not_contains_origin(
    s0: &Vec3,
    s1: &Vec3,
    s2: &Vec3,
    s3: &Vec3,
) -> (r: Option<(Vec3, Vec3, Vec3, Ghost<V3>)>)
    requires
        in_b(*s0, MINK_B as int),
        in_b(*s1, MINK_B as int),
        in_b(*s2, MINK_B as int),
        in_b(*s3, MINK_B as int),
    ensures
        (r is None) <==> simplex_contains_origin(seq![*s0, *s1, *s2, *s3]),
        r matches Some(t) ==> {
            let s = seq![*s0, *s1, *s2, *s3];
            &&& dot3(t.3@, v3(*s3)) < 0
            &&& t.3@ != zero3()
            &&& cross3(sub3(v3(t.1), v3(*s3)), sub3(v3(t.2), v3(*s3))) == neg3(t.3@)
            &&& v3(t.0) == dirn3(t.3@)
            &&& in_b(t.0, UNIT as int)
            &&& in_b(t.1, MINK_B as int)
            &&& in_b(t.2, MINK_B as int)
            &&& (t.1 == *s0 || t.1 == *s1 || t.1 == *s2)
            &&& (t.2 == *s0 || t.2 == *s1 || t.2 == *s2)
            &&& exists|w: int|
                {
                    &&& 0 <= w < 3
                    &&& #[trigger] gjk_side_outside(s, w)
                    &&& t.3@ == gjk_side_n(s, w)
                    &&& forall|u: int|
                        0 <= u < 3 && gjk_side_outside(s, u) ==> gjk_probe_depth(s, u)
                            <= gjk_probe_depth(s, w)
                    &&& forall|u: int|
                        0 <= u < w && gjk_side_outside(s, u) ==> gjk_probe_depth(s, u)
                            < gjk_probe_depth(s, w)
                }
        },
{
    let n_a = vcross(&vsub(s1, s3), &vsub(s0, s3));
    let n_b = vcross(&vsub(s2, s3), &vsub(s1, s3));
    let n_c = vcross(&vsub(s0, s3), &vsub(s2, s3));
    let cand_a = !is_zero(&n_a) && vdot(&n_a, s3) < 0;
    let cand_b = !is_zero(&n_b) && vdot(&n_b, s3) < 0;
    let cand_c = !is_zero(&n_c) && vdot(&n_c, s3) < 0;
    proof {
        let s = seq![*s0, *s1, *s2, *s3];
        assert(v3(n_a) == gjk_side_n(s, 0));
        assert(v3(n_b) == gjk_side_n(s, 1));
        assert(v3(n_c) == gjk_side_n(s, 2));
        assert(cand_a == gjk_side_outside(s, 0));
        assert(cand_b == gjk_side_outside(s, 1));
        assert(cand_c == gjk_side_outside(s, 2));
    }
    if !cand_a && !cand_b && !cand_c {
        return None;
    }
    let nh_a = dir_normalize(&n_a);
    let nh_b = dir_normalize(&n_b);
    let nh_c = dir_normalize(&n_c);
    let da: i64 = norm_dist(&nh_a, s3);
    let db: i64 = norm_dist(&nh_b, s3);
    let dc: i64 = norm_dist(&nh_c, s3);
    proof {
        let s = seq![*s0, *s1, *s2, *s3];
        assert(da == gjk_probe_depth(s, 0));
        assert(db == gjk_probe_depth(s, 1));
        assert(dc == gjk_probe_depth(s, 2));
    }
    let mut have = false;
    let mut bestd: i64 = 0;
    let mut nh: Vec3 = Vec3 { x: 0, y: 0, z: 0 };
    let mut t1: Vec3 = *s0;
    let mut t2: Vec3 = *s1;
    let ghost mut gn: V3 = zero3();
    let ghost mut w: int = 0;
    if cand_a {
        have = true;
        bestd = da;
        nh = nh_a;
        t1 = *s0;
        t2 = *s1;
        proof {
            gn = v3(n_a);
            w = 0;
        }
    }
    if cand_b && (!have || db > bestd) {
        have = true;
        bestd = db;
        nh = nh_b;
        t1 = *s1;
        t2 = *s2;
        proof {
            gn = v3(n_b);
            w = 1;
        }
    }
    if cand_c && (!have || dc > bestd) {
        have = true;
        bestd = dc;
        nh = nh_c;
        t1 = *s2;
        t2 = *s0;
        proof {
            gn = v3(n_c);
            w = 2;
        }
    }
    proof {
        let s = seq![*s0, *s1, *s2, *s3];
        lemma_cross3_antisym(sub3(v3(*s0), v3(*s3)), sub3(v3(*s1), v3(*s3)));
        lemma_cross3_antisym(sub3(v3(*s1), v3(*s3)), sub3(v3(*s2), v3(*s3)));
        lemma_cross3_antisym(sub3(v3(*s2), v3(*s3)), sub3(v3(*s0), v3(*s3)));
        assert(0 <= w < 3 && gjk_side_outside(s, w) && gn == gjk_side_n(s, w) && bestd
            == gjk_probe_depth(s, w));
        assert(forall|u: int|
            0 <= u < 3 && gjk_side_outside(s, u) ==> gjk_probe_depth(s, u) <= gjk_probe_depth(
                s,
                w,
            ));
        assert(forall|u: int|
            0 <= u < w && gjk_side_outside(s, u) ==> gjk_probe_depth(s, u) < gjk_probe_depth(
                s,
                w,
            ));
    }
    Some((nh, t1, t2, Ghost(gn)))
}

/// What a GJK run can establish: a simplex witnessing intersection, a probe
/// direction certifying separation, or nothing when the iteration budget ran
/// out before either.
pub enum GjkOutcome {
    Intersecting(Simplex),
    Separated(Ghost<Vec3>),
    Inconclusive,
}

/// GJK with its verdict made explicit: search for the origin inside the
/// Minkowski difference of two convex shapes by refining a tetrahedron of
/// support points.
///
/// `Intersecting` carries the simplex: with `count == 4` every vertex is a
/// Minkowski support point, the exact containment test of
/// `simplex_contains_origin` holds, and the base triangle is oriented away
/// from the origin; `count == 1` reports an exact touch and happens exactly
/// when the first Minkowski support along the seed direction is the origin.
/// `Separated` carries the failed probe direction: the Minkowski support
/// along it falls strictly behind the origin, so the origin is unreachable
/// (see `lemma_support_witness_separates` for what that means for boxes).
/// `Inconclusive` means the iteration budget ran out first.
pub fn gjk_classified<A: ConvexHull, B: ConvexHull>(a: &A, b: &B) -> (r: GjkOutcome)
    requires
        a.hull_wf(),
        b.hull_wf(),
    ensures
        r matches GjkOutcome::Intersecting(s) ==> {
            &&& s.vertices@.len() == 4
            &&& (s.count == 4 || s.count == 1)
            &&& forall|k: int| 0 <= k < 4 ==> in_b(#[trigger] s.vertices@[k], MINK_B as int)
            &&& (s.count == 1 ==> v3(s.vertices@[0]) == zero3() && is_mink_point(
                *a,
                *b,
                zero3(),
            ))
            &&& (s.count == 4 ==> simplex_contains_origin(s.vertices@) && base_oriented(
                s.vertices@,
            ) && (forall|k: int|
                0 <= k < 4 ==> is_mink_point(*a, *b, v3(#[trigger] s.vertices@[k]))))
        },
        r matches GjkOutcome::Separated(wd) ==> v3(wd@) != zero3() && dot3(
            mink_support3(*a, *b, v3(wd@)),
            v3(wd@),
        ) < 0,
        mink_support3(*a, *b, seed3()) == zero3() ==> (r matches GjkOutcome::Intersecting(s)
            && s.count == 1),
        (r matches GjkOutcome::Intersecting(s) && s.count == 1) ==> mink_support3(
            *a,
            *b,
            seed3(),
        ) == zero3(),
{
    let zv = Vec3 { x: 0, y: 0, z: 0 };
    // 1. A first support along the seed direction.
    let seed = Vec3 { x: UNIT, y: 0, z: 0 };
    let v0 = get_support(a, b, &seed);
    // 2. If that support is the origin itself, the shapes touch.
    if is_zero(&v0) {
        let mut vs: Vec<Vec3> = Vec::new();
        vs.push(v0);
        vs.push(zv);
        vs.push(zv);
        vs.push(zv);
        return GjkOutcome::Intersecting(Simplex { vertices: vs, count: 1 });
    }
    let d1 = vneg(&v0);
    let v1 = get_support(a, b, &d1);
    if vdot(&v1, &d1) < 0 {
        return GjkOutcome::Separated(Ghost(d1));
    }
    // 3. A direction perpendicular to the first segment, toward the origin.
    let c01 = vcross(&v0, &v1);
    let seg = vsub(&v1, &v0);
    let mut d2: Vec3;
    let mut v2: Vec3;
    if is_zero(&c01) {
        // Origin collinear with the segment: take any non-degenerate
        // axis-cross of the segment instead.
        let ya = Vec3 { x: 0, y: UNIT, z: 0 };
        let za = Vec3 { x: 0, y: 0, z: UNIT };
        let mut dr = vcross(&ya, &seg);
        if is_zero(&dr) {
            dr = vcross(&za, &seg);
        }
        d2 = dir_normalize(&dr);
        v2 = get_support(a, b, &d2);
        if v2 == v0 || v2 == v1 {
            d2 = vneg(&d2);
            v2 = get_support(a, b, &d2);
        }
    } else {
        let sc = shrink(&c01);
        d2 = dir_normalize(&vcross(&sc, &seg));
        v2 = get_support(a, b, &d2);
    }
    if vdot(&v2, &d2) < 0 {
        proof {
            lemma_dot_zero_right(v3(v2));
        }
        return GjkOutcome::Separated(Ghost(d2));
    }
    // 4. The support beyond the plane of the first triangle, with the
    //    triangle reordered so its normal points away from the origin.
    let e1 = vsub(&v1, &v0);
    let e2 = vsub(&v2, &v0);
    let nrm = vcross(&e1, &e2);
    let mut s0 = v0;
    let mut s1 = v1;
    let mut s2 = v2;
    let d3: Vec3;
    if vdot(&nrm, &v0) < 0 {
        d3 = dir_normalize(&nrm);
        let t = s1;
        s1 = s2;
        s2 = t;
        proof {
            lemma_cross3_antisym(sub3(v3(s1), v3(s0)), sub3(v3(s2), v3(s0)));
            crate::math::lemma_dot3_neg(v3(nrm), v3(s0));
        }
    } else {
        d3 = dir_normalize(&vneg(&nrm));
    }
    let mut s3 = get_support(a, b, &d3);
    if vdot(&s3, &d3) < 0 {
        proof {
            lemma_dot_zero_right(v3(s3));
        }
        return GjkOutcome::Separated(Ghost(d3));
    }
    // 5. Refine the tetrahedron until it contains the origin, a probe
    //    proves separation, or the budget runs out.
    let mut contained = false;
    let mut separated = false;
    let mut wit: Vec3 = seed;
    let mut fuel: u64 = GJK_MAX_ITERS;
    while fuel > 0 && !contained && !separated
        invariant
            a.hull_wf(),
            b.hull_wf(),
            in_b(s0, MINK_B as int),
            in_b(s1, MINK_B as int),
            in_b(s2, MINK_B as int),
            in_b(s3, MINK_B as int),
            is_mink_point(*a, *b, v3(s0)),
            is_mink_point(*a, *b, v3(s1)),
            is_mink_point(*a, *b, v3(s2)),
            is_mink_point(*a, *b, v3(s3)),
            base_oriented(seq![s0, s1, s2, s3]),
            contained ==> simplex_contains_origin(seq![s0, s1, s2, s3]),
            separated ==> v3(wit) != zero3() && dot3(mink_support3(*a, *b, v3(wit)), v3(wit))
                < 0,
        decreases fuel,
    {
        match get_nearest_if_not_contains_origin(&s0, &s1, &s2, &s3) {
            None => {
                contained = true;
            },
            Some((nh, t1, t2, gn)) => {
                let sn = get_support(a, b, &nh);
                if vdot(&sn, &nh) < 0 {
                    proof {
                        lemma_dot_zero_right(v3(sn));
                    }
                    separated = true;
                    wit = nh;
                } else {
                    proof {
                        crate::math::lemma_dot3_neg(gn@, v3(s3));
                    }
                    s0 = s3;
                    s1 = t1;
                    s2 = t2;
                    s3 = sn;
                }
            },
        }
        fuel = fuel - 1;
    }
    if contained {
        let mut vs: Vec<Vec3> = Vec::new();
        vs.push(s0);
        vs.push(s1);
        vs.push(s2);
        vs.push(s3);
        proof {
            assert(vs@ =~= seq![s0, s1, s2, s3]);
        }
        GjkOutcome::Intersecting(Simplex { vertices: vs, count: 4 })
    } else if separated {
        GjkOutcome::Separated(Ghost(wit))
    } else {
        GjkOutcome::Inconclusive
    }
}

/// The dot product with the zero vector is zero.
proof fn lemma_dot_zero_right(x: V3)
    ensures
        dot3(x, zero3()) == 0,
{
}

/// GJK under the original facade: the simplex on intersection, `None` when a
/// probe proved separation or the iteration budget ran out; `gjk_classified`
/// tells those two apart and carries the separating probe direction.
pub fn gjk<A: ConvexHull, B: ConvexHull>(a: &A, b: &B) -> (r: Option<Simplex>)
    requires
        a.hull_wf(),
        b.hull_wf(),
    ensures
        r matches Some(s) ==> {
            &&& s.vertices@.len() == 4
            &&& (s.count == 4 || s.count == 1)
            &&& forall|k: int| 0 <= k < 4 ==> in_b(#[trigger] s.vertices@[k], MINK_B as int)
            &&& (s.count == 1 ==> v3(s.vertices@[0]) == zero3() && is_mink_point(
                *a,
                *b,
                zero3(),
            ))
            &&& (s.count == 4 ==> simplex_contains_origin(s.vertices@) && base_oriented(
                s.vertices@,
            ) && (forall|k: int|
                0 <= k < 4 ==> is_mink_point(*a, *b, v3(#[trigger] s.vertices@[k]))))
        },
        mink_support3(*a, *b, seed3()) == zero3() ==> (r matches Some(s) && s.count == 1),
        (r matches Some(s) && s.count == 1) ==> mink_support3(*a, *b, seed3()) == zero3(),
{
    match gjk_classified(a, b) {
        GjkOutcome::Intersecting(s) => Some(s),
        GjkOutcome::Separated(_) => None,
        GjkOutcome::Inconclusive => None,
    }
}

/// The fixed-point distance of the plane through `p` with unit normal `nh`.
fn norm_dist(nh: &Vec3, p: &Vec3) -> (r: i64)
    requires
        in_b(*nh, UNIT as int),
        in_b(*p, MINK_B as int),
    ensures
        r == tdivs(dot3(v3(*nh), v3(*p)), UNIT as int),
        -(3 * (MINK_B as int)) <= r <= 3 * (MINK_B as int),
{
    proof {
        lemma_mul_le(nh.x as int, p.x as int, UNIT as int, MINK_B as int);
        lemma_mul_le(nh.y as int, p.y as int, UNIT as int, MINK_B as int);
        lemma_mul_le(nh.z as int, p.z as int, UNIT as int, MINK_B as int);
        assert(3 * ((UNIT as int) * (MINK_B as int)) == (UNIT as int) * (3 * (MINK_B as int)))
            by (nonlinear_arith);
        lemma_tdivs_bound(dot3(v3(*nh), v3(*p)), UNIT as int, 3 * (MINK_B as int));
    }
    let d: i128 = vdot(nh, p);
    tdiv128(d, UNIT as i128) as i64
}

/// Remove the reverse of edge `(e0, e1)` if present, else record the edge:
/// an edge interior to the removed region cancels against its twin, and what
/// is left is the boundary loop.
fn add_edge(edges: &mut Vec<(usize, usize)>, e0: usize, e1: usize, n: Ghost<int>)
    requires
        e0 < n@,
        e1 < n@,
        forall|i: int|
            0 <= i < old(edges)@.len() ==> (#[trigger] old(edges)@[i]).0 < n@ && old(edges)@[i].1
                < n@,
    ensures
        forall|i: int|
            0 <= i < final(edges)@.len() ==> (#[trigger] final(edges)@[i]).0 < n@
                && (final(edges)@[i]).1 < n@,
{
    let mut i: usize = 0;
    let mut pos: usize = edges.len();
    let elen: usize = edges.len();
    while i < elen
        invariant
            elen == edges.len(),
            i <= elen,
            pos <= elen,
            forall|t: int|
                0 <= t < edges@.len() ==> (#[trigger] edges@[t]).0 < n@ && edges@[t].1 < n@,
        decreases elen - i,
    {
        if pos == elen {
            let e = edges[i];
            if e.0 == e1 && e.1 == e0 {
                pos = i;
            }
        }
        i = i + 1;
    }
    if pos < elen {
        edges.remove(pos);
        proof {
            assert forall|t: int|
                0 <= t < edges@.len() implies (#[trigger] edges@[t]).0 < n@ && edges@[t].1
                < n@ by {}
        }
    } else {
        edges.push((e0, e1));
    }
}

/// GJK followed by EPA: decide intersection and, on intersection, expand the
/// final simplex toward the Minkowski boundary to recover the collision
/// normal and penetration depth.
///
/// Every report satisfies `epa_result_ok`: the zero report stands only for
/// an exact touch or a fully degenerate starting polytope, and any other
/// report is the nearest face (least distance, earliest on ties) of an EPA
/// face list over Minkowski support points, its outward normal negated so
/// that it points from `b` toward `a`.  `None` is returned exactly when the
/// underlying GJK run returned no simplex (separation proven, or its budget
/// exhausted).
pub fn gjk_epa<A: ConvexHull, B: ConvexHull>(a: &A, b: &B) -> (r: Option<CollisionDetails>)
    requires
        a.hull_wf(),
        b.hull_wf(),
    ensures
        r matches Some(cd) ==> epa_result_ok(*a, *b, cd),
        mink_support3(*a, *b, seed3()) == zero3() ==> r == Some(
            (CollisionDetails { normal: (Vec3 { x: 0, y: 0, z: 0 }), penetration: 0 }),
        ),
{
    let zv = Vec3 { x: 0, y: 0, z: 0 };
    let simplex = match gjk(a, b) {
        None => {
            return None;
        },
        Some(s) => s,
    };
    if simplex.count <= 1 {
        // Exact touch: the origin is itself a Minkowski support point.
        return Some(CollisionDetails { normal: zv, penetration: 0 });
    }
    // The polytope starts as the containing tetrahedron, with its four
    // outward faces.
    let mut polytope: Vec<Vec3> = simplex.vertices;
    let mut faces: Vec<Face> = Vec::new();
    match make_face(&polytope, 0, 1, 2) {
        Some(f) => faces.push(f),
        None => {},
    }
    match make_face(&polytope, 3, 1, 0) {
        Some(f) => faces.push(f),
        None => {},
    }
    match make_face(&polytope, 3, 2, 1) {
        Some(f) => faces.push(f),
        None => {},
    }
    match make_face(&polytope, 3, 0, 2) {
        Some(f) => faces.push(f),
        None => {},
    }
    if faces.len() == 0 {
        // Every starting face is degenerate: nothing can be expanded, and
        // the shapes at most touch.
        proof {
            assert(epa_degenerate_at(
                *a,
                *b,
                v3(polytope@[0]),
                v3(polytope@[1]),
                v3(polytope@[2]),
                v3(polytope@[3]),
            ));
        }
        return Some(CollisionDetails { normal: zv, penetration: 0 });
    }
    let mut best: Option<CollisionDetails> = None;
    let mut fuel: u64 = EPA_MAX_ITERS;
    while fuel > 0
        invariant
            a.hull_wf(),
            b.hull_wf(),
            mink_support3(*a, *b, seed3()) != zero3(),
            faces.len() >= 1,
            forall|k: int|
                0 <= k < polytope@.len() ==> in_b(#[trigger] polytope@[k], MINK_B as int),
            forall|k: int|
                0 <= k < polytope@.len() ==> is_mink_point(*a, *b, v3(#[trigger] polytope@[k])),
            forall|i: int| 0 <= i < faces@.len() ==> (#[trigger] faces@[i]).wf_for(polytope@),
            best matches Some(bd) ==> epa_face_report(*a, *b, bd),
            fuel < EPA_MAX_ITERS ==> (best is Some),
        decreases fuel,
    {
        // 1. The face nearest the origin (earliest on ties).
        let mut mi: usize = 0;
        let mut j: usize = 1;
        while j < faces.len()
            invariant
                faces.len() >= 1,
                mi < j,
                j <= faces.len(),
                forall|t: int|
                    0 <= t < j ==> faces@[mi as int].distance <= (#[trigger] faces@[t]).distance,
                forall|t: int|
                    0 <= t < mi ==> faces@[mi as int].distance < (#[trigger] faces@[t]).distance,
            decreases faces.len() - j,
        {
            if faces[j].distance < faces[mi].distance {
                mi = j;
            }
            j = j + 1;
        }
        let ghost fs0 = faces@;
        let ghost ps0 = polytope@;
        let f = faces[mi];
        let cd = CollisionDetails { normal: vneg(&f.normal), penetration: f.distance };
        proof {
            assert(epa_face_report_at(*a, *b, cd, fs0, ps0, mi as int));
        }
        // 2. Probe beyond that face; if the polytope cannot expand
        //    measurably, the face is on the Minkowski boundary.
        let support = get_support(a, b, &f.normal);
        let sd: i64 = norm_dist(&f.normal, &support);
        let diff: i64 = sd - f.distance;
        let adiff: i64 = if diff >= 0 {
            diff
        } else {
            -diff
        };
        if adiff < EPA_EPS {
            return Some(cd);
        }
        // 3. Add the support and remove every face it can see.
        polytope.push(support);
        proof {
            assert forall|k: int|
                0 <= k < polytope@.len() implies in_b(#[trigger] polytope@[k], MINK_B as int)
                && is_mink_point(*a, *b, v3(polytope@[k])) by {
                if k < polytope@.len() - 1 {
                } else {
                    assert(polytope@[k] == support);
                }
            }
            assert forall|i: int|
                0 <= i < faces@.len() implies (#[trigger] faces@[i]).wf_for(polytope@) by {}
        }
        let new_idx: usize = polytope.len() - 1;
        let mut kept: Vec<Face> = Vec::new();
        let mut visible: Vec<Face> = Vec::new();
        let mut t: usize = 0;
        while t < faces.len()
            invariant
                t <= faces.len(),
                forall|i: int| 0 <= i < faces@.len() ==> (#[trigger] faces@[i]).wf_for(polytope@),
                forall|i: int| 0 <= i < kept@.len() ==> (#[trigger] kept@[i]).wf_for(polytope@),
                forall|i: int|
                    0 <= i < visible@.len() ==> (#[trigger] visible@[i]).wf_for(polytope@),
                forall|k: int|
                    0 <= k < polytope@.len() ==> in_b(#[trigger] polytope@[k], MINK_B as int),
                in_b(support, MINK_B as int),
            decreases faces.len() - t,
        {
            let g = faces[t];
            let base = polytope[g.i0];
            let dv = vsub(&support, &base);
            if vdot(&g.normal, &dv) > 0 {
                visible.push(g);
            } else {
                kept.push(g);
            }
            t = t + 1;
        }
        faces = kept;
        // 4. The boundary of the removed region: directed edges that are
        //    not cancelled by their reverse on another removed face.
        let mut edges: Vec<(usize, usize)> = Vec::new();
        let ghost plen: int = polytope@.len() as int;
        let mut t2: usize = 0;
        while t2 < visible.len()
            invariant
                t2 <= visible.len(),
                forall|i: int|
                    0 <= i < visible@.len() ==> (#[trigger] visible@[i]).wf_for(polytope@),
                forall|i: int|
                    0 <= i < edges@.len() ==> (#[trigger] edges@[i]).0 < plen && edges@[i].1
                        < plen,
                plen == polytope@.len() as int,
            decreases visible.len() - t2,
        {
            let g = visible[t2];
            add_edge(&mut edges, g.i0, g.i1, Ghost(plen));
            add_edge(&mut edges, g.i1, g.i2, Ghost(plen));
            add_edge(&mut edges, g.i2, g.i0, Ghost(plen));
            t2 = t2 + 1;
        }
        // 5. New faces from each boundary edge to the new vertex; drop the
        //    degenerate ones.
        let mut added: usize = 0;
        let mut t3: usize = 0;
        while t3 < edges.len()
            invariant
                t3 <= edges.len(),
                added <= t3,
                new_idx < polytope.len(),
                faces.len() >= added,
                forall|i: int|
                    0 <= i < edges@.len() ==> (#[trigger] edges@[i]).0 < plen && edges@[i].1
                        < plen,
                plen == polytope@.len() as int,
                forall|k: int|
                    0 <= k < polytope@.len() ==> in_b(#[trigger] polytope@[k], MINK_B as int),
                forall|i: int| 0 <= i < faces@.len() ==> (#[trigger] faces@[i]).wf_for(polytope@),
            decreases edges.len() - t3,
        {
            let e = edges[t3];
            match make_face(&polytope, e.0, e.1, new_idx) {
                Some(nf) => {
                    faces.push(nf);
                    added = added + 1;
                },
                None => {},
            }
            t3 = t3 + 1;
        }
        if added == 0 {
            // 6. No face survived: the polytope is as expanded as it gets.
            return Some(cd);
        }
        best = Some(cd);
        fuel = fuel - 1;
    }
    // Iteration budget exhausted: report the best tentative result.
    match best {
        Some(bd) => Some(bd),
        None => {
            proof {
                assert(false);
            }
            Some(CollisionDetails { normal: zv, penetration: 0 })
        },
    }
}

} // verus!
