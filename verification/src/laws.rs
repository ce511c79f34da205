//! Laws of the collision queries: symmetry of every intersection test, the
//! separating meaning of a failed support probe, and the sign discipline of
//! the reported penetrations.
use vstd::prelude::*;

use crate::bounds::{
    aabb_details_ok, aabb_axis_pen, aabb_min_axis, aabb_overlap, corner3, scale_unit3,
    unit_axis3, BoundingBox,
};
use crate::convex_hull::{box_support3, box_support_upto, mink_support3};
use crate::math::{
    abs_i, add3, cross3, dot3, lemma_cross3_antisym, lemma_dot3_comm, lemma_dot3_neg,
    lemma_tdivs_neg, neg3, norm2_3, sub3, tdivs, v3, zero3, V3, UNIT,
};
use crate::sphere::Sphere;
use crate::static_collision::StaticCollision;

verus! {

proof fn lemma_dot_sub(d: V3, x: V3, y: V3)
    by (nonlinear_arith)
    ensures
        dot3(d, sub3(x, y)) == dot3(d, x) - dot3(d, y),
{
}

proof fn lemma_norm2_sub_sym(a: V3, b: V3)
    by (nonlinear_arith)
    ensures
        norm2_3(sub3(a, b)) == norm2_3(sub3(b, a)),
{
}

/// Negating the axis flips and negates a box's projection interval.
proof fn lemma_bproj_neg(b: BoundingBox, axis: V3)
    ensures
        BoundingBox::bproj_min(b, neg3(axis)) == -BoundingBox::bproj_max(b, axis),
        BoundingBox::bproj_max(b, neg3(axis)) == -BoundingBox::bproj_min(b, axis),
{
    reveal(BoundingBox::bproj_min);
    reveal(BoundingBox::bproj_max);
    lemma_dot3_neg(axis, corner3(b, 0));
    lemma_dot3_neg(axis, corner3(b, 1));
    lemma_dot3_neg(axis, corner3(b, 2));
    lemma_dot3_neg(axis, corner3(b, 3));
    lemma_dot3_neg(axis, corner3(b, 4));
    lemma_dot3_neg(axis, corner3(b, 5));
    lemma_dot3_neg(axis, corner3(b, 6));
    lemma_dot3_neg(axis, corner3(b, 7));
}

/// The two boxes' projection intervals meet on `axis` iff they meet on the
/// negated axis, with the boxes in either order.
proof fn lemma_overlap_neg(a: BoundingBox, b: BoundingBox, axis: V3)
    ensures
        BoundingBox::box_overlap_on(b, a, neg3(axis)) == BoundingBox::box_overlap_on(a, b, axis),
{
    lemma_bproj_neg(a, axis);
    lemma_bproj_neg(b, axis);
}

/// Negating a candidate axis negates its scaled form.
proof fn lemma_scale_unit_neg(v: V3)
    ensures
        scale_unit3(neg3(v)) == neg3(scale_unit3(v)),
{
    lemma_tdivs_neg(v.x, UNIT as int);
    lemma_tdivs_neg(v.y, UNIT as int);
    lemma_tdivs_neg(v.z, UNIT as int);
}

/// With the boxes swapped, candidate axis `k` is the original candidate
/// axis `sat_sym_idx(k)`, negated for the cross-product block.
spec fn sat_sym_idx(k: int) -> int {
    if k < 3 {
        k + 3
    } else if k < 6 {
        k - 3
    } else {
        6 + 3 * ((k - 6) % 3) + (k - 6) / 3
    }
}

proof fn lemma_sat_axis_swap(a: BoundingBox, b: BoundingBox, k: int)
    requires
        0 <= k < 15,
    ensures
        3 <= k < 6 || k < 3 ==> BoundingBox::sat_axis(b, a, k) == BoundingBox::sat_axis(
            a,
            b,
            sat_sym_idx(k),
        ),
        6 <= k < 15 ==> BoundingBox::sat_axis(b, a, k) == neg3(
            BoundingBox::sat_axis(a, b, sat_sym_idx(k)),
        ),
        0 <= sat_sym_idx(k) < 15,
{
    if k >= 6 {
        let i = (k - 6) / 3;
        let j = (k - 6) % 3;
        assert(0 <= i < 3 && 0 <= j < 3 && k - 6 == 3 * i + j);
        let m = sat_sym_idx(k);
        assert(m - 6 == 3 * j + i);
        assert((m - 6) / 3 == j && (m - 6) % 3 == i);
        lemma_cross3_antisym(b.axis3(i), a.axis3(j));
        lemma_scale_unit_neg(cross3(a.axis3(j), b.axis3(i)));
    }
}

/// One direction of SAT symmetry: if no candidate axis separates `a` from
/// `b`, none separates `b` from `a`.
proof fn lemma_sat_sym_one(a: BoundingBox, b: BoundingBox)
    requires
        BoundingBox::sat_overlap_all(a, b),
    ensures
        BoundingBox::sat_overlap_all(b, a),
{
    assert forall|k: int| 0 <= k < 15 implies (#[trigger] BoundingBox::sat_axis(b, a, k)
        == zero3() || BoundingBox::box_overlap_on(b, a, BoundingBox::sat_axis(b, a, k))) by {
        let m = sat_sym_idx(k);
        lemma_sat_axis_swap(a, b, k);
        assert(BoundingBox::sat_axis(a, b, m) == zero3() || BoundingBox::box_overlap_on(
            a,
            b,
            BoundingBox::sat_axis(a, b, m),
        ));
        if k < 6 {
        } else {
            if BoundingBox::sat_axis(a, b, m) == zero3() {
                assert(BoundingBox::sat_axis(b, a, k) == zero3());
            } else {
                lemma_overlap_neg(a, b, BoundingBox::sat_axis(a, b, m));
            }
        }
    }
}

/// Symmetry of the box-vs-box intersection test: the static dispatch gives
/// the same answer with the boxes in either order.
pub proof fn lemma_static_collision_symmetric_boxes(a: BoundingBox, b: BoundingBox)
    requires
        a.wf(),
        b.wf(),
    ensures
        a.static_collides(&b) == b.static_collides(&a),
{
    if a.rotation is Some || b.rotation is Some {
        if BoundingBox::sat_overlap_all(a, b) {
            lemma_sat_sym_one(a, b);
        }
        if BoundingBox::sat_overlap_all(b, a) {
            lemma_sat_sym_one(b, a);
        }
    }
}

/// Symmetry of the sphere-vs-sphere intersection test.
pub proof fn lemma_static_collision_symmetric_spheres(a: Sphere, b: Sphere)
    ensures
        a.static_collides(&b) == b.static_collides(&a),
{
    lemma_norm2_sub_sym(v3(a.center), v3(b.center));
}

/// Symmetry of the box-vs-sphere intersection test: the sphere side
/// delegates to the very same predicate.
pub proof fn lemma_static_collision_symmetric_box_sphere(b: BoundingBox, s: Sphere)
    ensures
        b.static_collides(&s) == s.static_collides(&b),
{
}

/// A box's support point maximises the projection over all eight corners.
proof fn lemma_box_support_upto_max(b: BoundingBox, dir: V3, k: int, m: int)
    requires
        0 <= k <= m,
    ensures
        dot3(dir, corner3(b, k)) <= dot3(dir, box_support_upto(b, dir, m)),
    decreases m,
{
    if m <= 0 {
    } else {
        if k == m {
        } else {
            lemma_box_support_upto_max(b, dir, k, m - 1);
        }
    }
}

pub proof fn lemma_box_support_maximal(b: BoundingBox, dir: V3, k: int)
    requires
        0 <= k < 8,
    ensures
        dot3(dir, corner3(b, k)) <= dot3(dir, box_support3(b, dir)),
{
    lemma_box_support_upto_max(b, dir, k, 7);
}

/// The separating meaning of a failed GJK probe, for box pairs: if the
/// Minkowski support along `d` lies strictly behind the origin — exactly
/// what a `Separated` verdict of `gjk_classified` certifies of its witness —
/// then every corner of `a` projects strictly below every corner of `b` on
/// `d`: the plane normal to `d` separates the two boxes.
pub proof fn lemma_support_witness_separates(a: BoundingBox, b: BoundingBox, d: V3, i: int, j: int)
    requires
        dot3(mink_support3(a, b, d), d) < 0,
        0 <= i < 8,
        0 <= j < 8,
    ensures
        dot3(d, corner3(a, i)) < dot3(d, corner3(b, j)),
{
    let sa = box_support3(a, d);
    let sb = box_support3(b, neg3(d));
    lemma_dot3_comm(mink_support3(a, b, d), d);
    lemma_box_support_maximal(a, d, i);
    lemma_box_support_maximal(b, neg3(d), j);
    lemma_dot3_neg(d, corner3(b, j));
    lemma_dot3_neg(d, sb);
    lemma_dot_sub(d, sa, sb);
}

/// Touching reports a collision with zero penetration: when the centers of
/// two axis-aligned boxes stand, on some axis, exactly the sum of the
/// extents apart (and no axis separates), the details query must report a
/// collision of penetration zero with a zero normal.
pub proof fn lemma_touching_reports_zero_penetration(
    a: BoundingBox,
    b: BoundingBox,
    i: int,
    r: Option<crate::CollisionDetails>,
)
    requires
        aabb_overlap(a, b),
        0 <= i < 3,
        abs_i(
            if i == 0 {
                a.center.x - b.center.x
            } else if i == 1 {
                a.center.y - b.center.y
            } else {
                a.center.z - b.center.z
            },
        ) == if i == 0 {
            a.extents.x + b.extents.x
        } else if i == 1 {
            a.extents.y + b.extents.y
        } else {
            a.extents.z + b.extents.z
        },
        aabb_details_ok(a, b, r),
    ensures
        r matches Some(cd) && cd.penetration == 0 && v3(cd.normal) == zero3(),
{
    assert(aabb_axis_pen(a, b, i) == 0);
    let w = aabb_min_axis(a, b);
    assert(abs_i(aabb_axis_pen(a, b, w)) <= abs_i(aabb_axis_pen(a, b, i)));
}

/// The vector the details queries report: the normal scaled by the
/// penetration, in fixed-point world units.
pub open spec fn scale_pen3(n: V3, p: int) -> V3 {
    V3 {
        x: tdivs(n.x * p, UNIT as int),
        y: tdivs(n.y * p, UNIT as int),
        z: tdivs(n.z * p, UNIT as int),
    }
}

/// The sign discipline of the AABB details report: translating the first
/// box by `normal * penetration` lands the pair exactly on touching — the
/// translated boxes still count as colliding, with penetration zero.
pub proof fn lemma_penetration_separates_aabb(
    a: BoundingBox,
    b: BoundingBox,
    cd: crate::CollisionDetails,
    am: BoundingBox,
)
    requires
        a.wf(),
        b.wf(),
        aabb_details_ok(a, b, Some(cd)),
        am.extents == a.extents,
        am.rotation == a.rotation,
        v3(am.center) == add3(v3(a.center), scale_pen3(v3(cd.normal), cd.penetration as int)),
    ensures
        aabb_overlap(am, b),
        aabb_axis_pen(am, b, aabb_min_axis(am, b)) == 0,
{
    let w = aabb_min_axis(a, b);
    let p = aabb_axis_pen(a, b, w);
    if p == 0 {
        assert(v3(cd.normal) == zero3());
        assert(scale_pen3(v3(cd.normal), 0) == zero3());
        assert(v3(am.center) == v3(a.center));
        assert(aabb_axis_pen(am, b, w) == 0);
        let wm = aabb_min_axis(am, b);
        assert(abs_i(aabb_axis_pen(am, b, wm)) <= abs_i(aabb_axis_pen(am, b, w)));
    } else {
        assert(v3(cd.normal) == unit_axis3(w));
        vstd::arithmetic::div_mod::lemma_div_multiples_vanish(p, UNIT as int);
        vstd::arithmetic::div_mod::lemma_div_multiples_vanish(-p, UNIT as int);
        assert(tdivs((UNIT as int) * p, UNIT as int) == p) by {
            if p >= 0 {
            } else {
                assert(-((UNIT as int) * p) == (UNIT as int) * (-p)) by (nonlinear_arith);
            }
        }
        assert(tdivs(0 * p, UNIT as int) == 0);
        assert(aabb_axis_pen(am, b, w) == 0);
        let wm = aabb_min_axis(am, b);
        assert(abs_i(aabb_axis_pen(am, b, wm)) <= abs_i(aabb_axis_pen(am, b, w)));
    }
}

/// Products evaluate through known component values.
proof fn lemma_mul_vals(x: int, y: int, a: int, b: int)
    by (nonlinear_arith)
    requires
        x == a,
        y == b,
    ensures
        x * y == a * b,
{
}

/// A cross product evaluates once the component values are known.
proof fn lemma_cross_eval(p: V3, q: V3, px: int, py: int, pz: int, qx: int, qy: int, qz: int)
    requires
        p == (V3 { x: px, y: py, z: pz }),
        q == (V3 { x: qx, y: qy, z: qz }),
    ensures
        cross3(p, q) == (V3 {
            x: py * qz - pz * qy,
            y: pz * qx - px * qz,
            z: px * qy - py * qx,
        }),
{
    lemma_mul_vals(p.y, q.z, py, qz);
    lemma_mul_vals(p.z, q.y, pz, qy);
    lemma_mul_vals(p.z, q.x, pz, qx);
    lemma_mul_vals(p.x, q.z, px, qz);
    lemma_mul_vals(p.x, q.y, px, qy);
    lemma_mul_vals(p.y, q.x, py, qx);
}

/// Multiplying by a positive factor keeps and reflects the order.
proof fn lemma_mul_le_iff(u: int, t1: int, t2: int)
    by (nonlinear_arith)
    requires
        u > 0,
    ensures
        (u * t1 <= u * t2) == (t1 <= t2),
{
}

/// On an unrotated pair, projecting the corners onto world axis `i` gives
/// back the closed-form axis condition of the AABB test.
proof fn lemma_unit_axis_overlap(a: BoundingBox, b: BoundingBox, i: int)
    requires
        a.wf(),
        b.wf(),
        (a.rotation is None),
        (b.rotation is None),
        0 <= i < 3,
    ensures
        BoundingBox::box_overlap_on(a, b, unit_axis3(i)) == (if i == 0 {
            abs_i(a.center.x - b.center.x) <= a.extents.x + b.extents.x
        } else if i == 1 {
            abs_i(a.center.y - b.center.y) <= a.extents.y + b.extents.y
        } else {
            abs_i(a.center.z - b.center.z) <= a.extents.z + b.extents.z
        }),
{
    reveal(BoundingBox::bproj_min);
    reveal(BoundingBox::bproj_max);
    let u = UNIT as int;
    if i == 0 {
        let alo = a.center.x - a.extents.x;
        let ahi = a.center.x + a.extents.x;
        let blo = b.center.x - b.extents.x;
        let bhi = b.center.x + b.extents.x;
        lemma_mul_le_iff(u, alo, ahi);
        lemma_mul_le_iff(u, blo, bhi);
        lemma_mul_le_iff(u, blo, ahi);
        lemma_mul_le_iff(u, alo, bhi);
        assert(BoundingBox::bproj_min(a, unit_axis3(i)) == u * alo);
        assert(BoundingBox::bproj_max(a, unit_axis3(i)) == u * ahi);
        assert(BoundingBox::bproj_min(b, unit_axis3(i)) == u * blo);
        assert(BoundingBox::bproj_max(b, unit_axis3(i)) == u * bhi);
    } else if i == 1 {
        let alo = a.center.y - a.extents.y;
        let ahi = a.center.y + a.extents.y;
        let blo = b.center.y - b.extents.y;
        let bhi = b.center.y + b.extents.y;
        lemma_mul_le_iff(u, alo, ahi);
        lemma_mul_le_iff(u, blo, bhi);
        lemma_mul_le_iff(u, blo, ahi);
        lemma_mul_le_iff(u, alo, bhi);
        assert(BoundingBox::bproj_min(a, unit_axis3(i)) == u * alo);
        assert(BoundingBox::bproj_max(a, unit_axis3(i)) == u * ahi);
        assert(BoundingBox::bproj_min(b, unit_axis3(i)) == u * blo);
        assert(BoundingBox::bproj_max(b, unit_axis3(i)) == u * bhi);
    } else {
        let alo = a.center.z - a.extents.z;
        let ahi = a.center.z + a.extents.z;
        let blo = b.center.z - b.extents.z;
        let bhi = b.center.z + b.extents.z;
        lemma_mul_le_iff(u, alo, ahi);
        lemma_mul_le_iff(u, blo, bhi);
        lemma_mul_le_iff(u, blo, ahi);
        lemma_mul_le_iff(u, alo, bhi);
        assert(BoundingBox::bproj_min(a, unit_axis3(i)) == u * alo);
        assert(BoundingBox::bproj_max(a, unit_axis3(i)) == u * ahi);
        assert(BoundingBox::bproj_min(b, unit_axis3(i)) == u * blo);
        assert(BoundingBox::bproj_max(b, unit_axis3(i)) == u * bhi);
    }
}

/// Engine agreement on the pairs both engines accept: for unrotated boxes
/// the separating-axis test decides exactly the closed-form AABB overlap.
pub proof fn lemma_sat_agrees_with_aabb(a: BoundingBox, b: BoundingBox)
    requires
        a.wf(),
        b.wf(),
        (a.rotation is None),
        (b.rotation is None),
    ensures
        BoundingBox::sat_overlap_all(a, b) == aabb_overlap(a, b),
{
    assert((UNIT as int) * (UNIT as int) == 4294967296) by (nonlinear_arith)
        requires
            (UNIT as int) == 65536,
    ;
    assert((UNIT as int) * 65536 == 4294967296) by (nonlinear_arith)
        requires
            (UNIT as int) == 65536,
    ;
    vstd::arithmetic::div_mod::lemma_div_multiples_vanish(65536, UNIT as int);
    vstd::arithmetic::div_mod::lemma_div_multiples_vanish(0, UNIT as int);
    assert((UNIT as int) * 0 == 0) by (nonlinear_arith);
    assert(0 * (UNIT as int) == 0) by (nonlinear_arith);
    assert(tdivs(0, UNIT as int) == 0);
    assert(tdivs(4294967296, UNIT as int) == 65536);
    assert(tdivs(-4294967296, UNIT as int) == -65536);
    lemma_unit_axis_overlap(a, b, 0);
    lemma_unit_axis_overlap(a, b, 1);
    lemma_unit_axis_overlap(a, b, 2);
    // The first six candidate axes are the world axes themselves.
    assert(BoundingBox::sat_axis(a, b, 0) == unit_axis3(0));
    assert(BoundingBox::sat_axis(a, b, 1) == unit_axis3(1));
    assert(BoundingBox::sat_axis(a, b, 2) == unit_axis3(2));
    assert(BoundingBox::sat_axis(a, b, 3) == unit_axis3(0));
    assert(BoundingBox::sat_axis(a, b, 4) == unit_axis3(1));
    assert(BoundingBox::sat_axis(a, b, 5) == unit_axis3(2));
    // Evaluate the nine cross products of world axes once, literally.
    let ux = V3 { x: UNIT as int, y: 0, z: 0 };
    let uy = V3 { x: 0, y: UNIT as int, z: 0 };
    let uz = V3 { x: 0, y: 0, z: UNIT as int };
    lemma_cross_eval(ux, ux, 65536, 0, 0, 65536, 0, 0);
    lemma_cross_eval(uy, uy, 0, 65536, 0, 0, 65536, 0);
    lemma_cross_eval(uz, uz, 0, 0, 65536, 0, 0, 65536);
    lemma_cross_eval(ux, uy, 65536, 0, 0, 0, 65536, 0);
    lemma_cross_eval(ux, uz, 65536, 0, 0, 0, 0, 65536);
    lemma_cross_eval(uy, ux, 0, 65536, 0, 65536, 0, 0);
    lemma_cross_eval(uy, uz, 0, 65536, 0, 0, 0, 65536);
    lemma_cross_eval(uz, ux, 0, 0, 65536, 65536, 0, 0);
    lemma_cross_eval(uz, uy, 0, 0, 65536, 0, 65536, 0);
    assert(cross3(ux, ux) == zero3());
    assert(cross3(uy, uy) == zero3());
    assert(cross3(uz, uz) == zero3());
    assert(cross3(ux, uy) == (V3 { x: 0, y: 0, z: 4294967296 }));
    assert(cross3(ux, uz) == (V3 { x: 0, y: -4294967296, z: 0 }));
    assert(cross3(uy, ux) == (V3 { x: 0, y: 0, z: -4294967296 }));
    assert(cross3(uy, uz) == (V3 { x: 4294967296, y: 0, z: 0 }));
    assert(cross3(uz, ux) == (V3 { x: 0, y: 4294967296, z: 0 }));
    assert(cross3(uz, uy) == (V3 { x: -4294967296, y: 0, z: 0 }));
    assert(a.axis3(0) == ux && a.axis3(1) == uy && a.axis3(2) == uz);
    assert(b.axis3(0) == ux && b.axis3(1) == uy && b.axis3(2) == uz);
    assert(scale_unit3(V3 { x: 0, y: 0, z: 4294967296 }) == unit_axis3(2));
    assert(scale_unit3(V3 { x: 0, y: -4294967296, z: 0 }) == neg3(unit_axis3(1)));
    assert(scale_unit3(V3 { x: 0, y: 0, z: -4294967296 }) == neg3(unit_axis3(2)));
    assert(scale_unit3(V3 { x: 4294967296, y: 0, z: 0 }) == unit_axis3(0));
    assert(scale_unit3(V3 { x: 0, y: 4294967296, z: 0 }) == unit_axis3(1));
    assert(scale_unit3(V3 { x: -4294967296, y: 0, z: 0 }) == neg3(unit_axis3(0)));
    assert(scale_unit3(zero3()) == zero3());
    // The nine cross products collapse to zero or to (negated) world axes.
    assert(BoundingBox::sat_axis(a, b, 6) == zero3());
    assert(BoundingBox::sat_axis(a, b, 7) == unit_axis3(2));
    assert(BoundingBox::sat_axis(a, b, 8) == neg3(unit_axis3(1)));
    assert(BoundingBox::sat_axis(a, b, 9) == neg3(unit_axis3(2)));
    assert(BoundingBox::sat_axis(a, b, 10) == zero3());
    assert(BoundingBox::sat_axis(a, b, 11) == unit_axis3(0));
    assert(BoundingBox::sat_axis(a, b, 12) == unit_axis3(1));
    assert(BoundingBox::sat_axis(a, b, 13) == neg3(unit_axis3(0)));
    assert(BoundingBox::sat_axis(a, b, 14) == zero3());
    if aabb_overlap(a, b) {
        assert forall|k: int| 0 <= k < 15 implies (#[trigger] BoundingBox::sat_axis(a, b, k)
            == zero3() || BoundingBox::box_overlap_on(a, b, BoundingBox::sat_axis(a, b, k))) by {
            if BoundingBox::sat_axis(a, b, k) != zero3() {
                lemma_bproj_neg(a, unit_axis3(0));
                lemma_bproj_neg(b, unit_axis3(0));
                lemma_bproj_neg(a, unit_axis3(1));
                lemma_bproj_neg(b, unit_axis3(1));
                lemma_bproj_neg(a, unit_axis3(2));
                lemma_bproj_neg(b, unit_axis3(2));
            }
        }
    }
    if BoundingBox::sat_overlap_all(a, b) {
        assert(BoundingBox::box_overlap_on(a, b, BoundingBox::sat_axis(a, b, 0)));
        assert(BoundingBox::box_overlap_on(a, b, BoundingBox::sat_axis(a, b, 1)));
        assert(BoundingBox::box_overlap_on(a, b, BoundingBox::sat_axis(a, b, 2)));
    }
}

} // verus!
