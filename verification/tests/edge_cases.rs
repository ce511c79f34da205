//! Edge cases: degenerate shapes, identical shapes, deep containment, and
//! exact touching through the convex-hull protocol.
use collision_core::bounds::BoundingBox;
use collision_core::convex_hull::gjk;
use collision_core::math::{Vec3, UNIT};
use collision_core::sphere::Sphere;
use collision_core::static_collision::StaticCollision;

fn fx(a: f64) -> i64 {
    (a * UNIT as f64).round() as i64
}

fn v(x: f64, y: f64, z: f64) -> Vec3 {
    Vec3 { x: fx(x), y: fx(y), z: fx(z) }
}

#[test]
fn default_box_is_a_point_at_the_origin() {
    let b = BoundingBox::default();
    assert_eq!(b.center(), Vec3 { x: 0, y: 0, z: 0 });
    assert_eq!(b.extents(), Vec3 { x: 0, y: 0, z: 0 });
    assert!(b.rotation().is_none());
    // A point box at the origin touches a unit box centered there.
    let unit = BoundingBox::new(v(0.0, 0.0, 0.0), v(1.0, 1.0, 1.0));
    assert!(b.aabb_collision(&unit));
}

#[test]
fn zero_extent_boxes_behave_as_points() {
    let a = BoundingBox::new(v(0.5, 0.0, 0.0), v(0.0, 0.0, 0.0));
    let b = BoundingBox::new(v(0.0, 0.0, 0.0), v(1.0, 1.0, 1.0));
    assert!(a.aabb_collision(&b));
    let far = BoundingBox::new(v(1.5, 0.0, 0.0), v(0.0, 0.0, 0.0));
    assert!(!far.aabb_collision(&b));
}

#[test]
fn identical_boxes_overlap_fully() {
    let a = BoundingBox::new(v(0.0, 0.0, 0.0), v(1.0, 1.0, 1.0));
    let b = BoundingBox::new(v(0.0, 0.0, 0.0), v(1.0, 1.0, 1.0));
    assert!(a.check_static_collision(&b));
    let cd = a.aabb_collision_details(&b).expect("full overlap");
    // Every axis overlaps by the full two units; the tie goes to X, and a
    // centered pair counts as "to the right" (positive sign).
    assert_eq!(cd.penetration, 2 * UNIT);
    assert_eq!(cd.normal, Vec3 { x: UNIT, y: 0, z: 0 });
}

#[test]
fn coincident_spheres_report_zero_normal() {
    let a = Sphere { center: v(0.0, 0.0, 0.0), radius: UNIT };
    let b = Sphere { center: v(0.0, 0.0, 0.0), radius: UNIT / 2 };
    let cd = a.check_sphere_collision_details(&b).expect("coincident spheres");
    assert_eq!(cd.normal, Vec3 { x: 0, y: 0, z: 0 });
    assert_eq!(cd.penetration, UNIT + UNIT / 2);
}

#[test]
fn sphere_buried_in_box_reports_zero_normal() {
    let b = BoundingBox::new(v(0.0, 0.0, 0.0), v(1.0, 1.0, 1.0));
    let s = Sphere { center: v(0.0, 0.0, 0.0), radius: UNIT / 2 };
    assert!(b.check_static_collision(&s));
    let cd = b.check_static_collision_details(&s).expect("contained sphere");
    // The sphere center sits inside the box: the offset to the surface is
    // zero, so the distance is zero and the whole radius penetrates.
    assert_eq!(cd.penetration, UNIT / 2);
    assert_eq!(cd.normal, Vec3 { x: 0, y: 0, z: 0 });
}

#[test]
fn exact_touch_yields_single_point_simplex() {
    // Boxes touching face to face: the Minkowski support along the seed
    // direction is the origin itself.
    let a = BoundingBox::new(v(0.0, 0.0, 0.0), v(1.0, 1.0, 1.0));
    let b = BoundingBox::new(v(2.0, 0.0, 0.0), v(1.0, 1.0, 1.0));
    let s = gjk(&a, &b).expect("touching counts as collision");
    assert_eq!(s.count, 1);
    assert_eq!(s.vertices[0], Vec3 { x: 0, y: 0, z: 0 });
}

#[test]
fn separated_on_one_axis_only() {
    let a = BoundingBox::new(v(0.0, 0.0, 0.0), v(1.0, 1.0, 1.0));
    let b = BoundingBox::new(v(0.5, 3.0, 0.0), v(1.0, 1.0, 1.0));
    assert!(!a.aabb_collision(&b));
    assert!(a.aabb_collision_details(&b).is_none());
    assert!(!a.check_static_collision(&b));
}

#[test]
fn details_pick_least_overlap_axis() {
    let a = BoundingBox::new(v(0.0, 0.0, 0.0), v(1.0, 1.0, 1.0));
    let b = BoundingBox::new(v(0.5, 1.8, 0.0), v(1.0, 1.0, 1.0));
    let cd = a.aabb_collision_details(&b).expect("overlapping");
    // X overlaps by 1.5, Y by 0.2, Z by 2.0: Y wins, and A sits below B.
    assert_eq!(cd.normal, Vec3 { x: 0, y: UNIT, z: 0 });
    assert_eq!(cd.penetration, -fx(0.2));
}
