//! Scenario tests for the AABB, SAT and sphere query paths.
use collision_core::bounds::BoundingBox;
use collision_core::math::{Mat3, Vec3, UNIT};
use collision_core::sphere::Sphere;
use collision_core::static_collision::StaticCollision;

fn fx(a: f64) -> i64 {
    (a * UNIT as f64).round() as i64
}

fn v(x: f64, y: f64, z: f64) -> Vec3 {
    Vec3 { x: fx(x), y: fx(y), z: fx(z) }
}

fn unit_box(cx: f64, cy: f64, cz: f64) -> BoundingBox {
    BoundingBox::new(v(cx, cy, cz), v(1.0, 1.0, 1.0))
}

fn rot_y(deg: f64) -> Mat3 {
    let rad = deg.to_radians();
    let c = rad.cos();
    let s = rad.sin();
    Mat3 {
        x_axis: v(c, 0.0, -s),
        y_axis: v(0.0, 1.0, 0.0),
        z_axis: v(s, 0.0, c),
    }
}

#[test]
fn aabb_disjoint() {
    let a = unit_box(0.0, 0.0, 0.0);
    let b = unit_box(3.0, 0.0, 0.0);
    assert!(!a.aabb_collision(&b));
    assert!(!a.check_boundingbox_collision(&b));
    assert!(!a.check_static_collision(&b));
    assert!(a.aabb_collision_details(&b).is_none());
    assert!(a.check_static_collision_details(&b).is_none());
}

#[test]
fn aabb_overlap_half_unit() {
    let a = unit_box(0.0, 0.0, 0.0);
    let b = unit_box(1.5, 0.0, 0.0);
    assert!(a.aabb_collision(&b));
    assert!(a.check_static_collision(&b));
    let cd = a.aabb_collision_details(&b).expect("collision expected");
    // The least-overlap axis is X; A stands left of B, so the signed
    // penetration is negative half a unit along the +X normal.
    assert_eq!(cd.penetration, -(UNIT / 2));
    assert_eq!(cd.normal, Vec3 { x: UNIT, y: 0, z: 0 });
}

#[test]
fn aabb_touching_zero_penetration() {
    let a = unit_box(0.0, 0.0, 0.0);
    let b = unit_box(2.0, 0.0, 0.0);
    assert!(a.aabb_collision(&b));
    let cd = a.aabb_collision_details(&b).expect("touching counts");
    assert_eq!(cd.penetration, 0);
    assert_eq!(cd.normal, Vec3 { x: 0, y: 0, z: 0 });
}

#[test]
fn translating_by_reported_vector_leaves_touching() {
    let a = unit_box(0.0, 0.0, 0.0);
    let b = unit_box(1.5, 0.0, 0.0);
    let cd = a.aabb_collision_details(&b).expect("collision expected");
    // Move A by normal * penetration (a fixed-point product).
    let moved = BoundingBox::new(
        Vec3 {
            x: a.center.x + cd.normal.x * cd.penetration / UNIT,
            y: a.center.y + cd.normal.y * cd.penetration / UNIT,
            z: a.center.z + cd.normal.z * cd.penetration / UNIT,
        },
        a.extents(),
    );
    assert!(moved.aabb_collision(&b));
    let cd2 = moved.aabb_collision_details(&b).expect("still touching");
    assert_eq!(cd2.penetration, 0);
}

#[test]
fn obb_edge_separation_at_45_degrees() {
    let a = BoundingBox::new_rotated(v(0.0, 0.0, 0.0), v(1.0, 1.0, 1.0), rot_y(45.0));
    let b = unit_box(2.5, 0.0, 0.0);
    // The rotated corner reaches sqrt(2) ~ 1.414; with B's extent 1 the gap
    // to 2.5 remains, so SAT must find a separating axis.
    assert!(!a.obb_collision(&b));
    assert!(!a.check_static_collision(&b));
    assert!(a.obb_collision_details(&b).is_none());
}

#[test]
fn obb_overlap_when_closer() {
    let a = BoundingBox::new_rotated(v(0.0, 0.0, 0.0), v(1.0, 1.0, 1.0), rot_y(45.0));
    let b = unit_box(2.0, 0.0, 0.0);
    // 1.414 + 1 = 2.414 > 2.0: the shapes overlap.
    assert!(a.obb_collision(&b));
    assert!(a.obb_collision_details(&b).is_some());
}

#[test]
fn obb_details_match_aabb_for_unrotated_boxes() {
    let a = unit_box(0.0, 0.0, 0.0);
    let b = unit_box(1.5, 0.0, 0.0);
    let cd = a.obb_collision_details(&b).expect("collision expected");
    assert_eq!(cd.penetration, -(UNIT / 2));
    assert_eq!(cd.normal, Vec3 { x: UNIT, y: 0, z: 0 });
}

#[test]
fn sphere_box_shallow_contact() {
    let b = unit_box(0.0, 0.0, 0.0);
    let s = Sphere { center: v(2.0, 0.0, 0.0), radius: fx(1.1) };
    assert!(b.check_sphere_collision(&s));
    assert!(s.check_boundingbox_collision(&b));
    // Queried sphere-vs-box, the normal points +X (moving the sphere out)
    // and the penetration is ~0.1.
    let cd = s.check_static_collision_details(&b).expect("contact expected");
    assert_eq!(cd.normal, Vec3 { x: UNIT, y: 0, z: 0 });
    assert_eq!(cd.penetration, fx(1.1) - UNIT);
    assert!((cd.penetration - fx(0.1)).abs() <= 1);
    // Queried box-vs-sphere, the normal is flipped and the penetration
    // stays non-negative.
    let cd2 = b.check_static_collision_details(&s).expect("contact expected");
    assert_eq!(cd2.normal, Vec3 { x: -UNIT, y: 0, z: 0 });
    assert_eq!(cd2.penetration, cd.penetration);
}

#[test]
fn sphere_box_disjoint() {
    let b = unit_box(0.0, 0.0, 0.0);
    let s = Sphere { center: v(3.0, 0.0, 0.0), radius: UNIT };
    assert!(!b.check_sphere_collision(&s));
    assert!(b.check_static_collision_details(&s).is_none());
    assert!(s.check_static_collision_details(&b).is_none());
}

#[test]
fn sphere_sphere_penetration_formula() {
    let a = Sphere { center: v(0.0, 0.0, 0.0), radius: UNIT };
    let b = Sphere { center: v(1.5, 0.0, 0.0), radius: UNIT };
    assert!(a.check_sphere_collision(&b));
    let cd = a.check_sphere_collision_details(&b).expect("overlapping");
    // penetration = r1 + r2 - |c1 - c2| = 1 + 1 - 1.5 = 0.5, exactly.
    assert_eq!(cd.penetration, UNIT / 2);
    // The normal points from b toward a: -X.
    assert_eq!(cd.normal, Vec3 { x: -UNIT, y: 0, z: 0 });
}

#[test]
fn sphere_sphere_touching() {
    let a = Sphere { center: v(0.0, 0.0, 0.0), radius: UNIT };
    let b = Sphere { center: v(2.0, 0.0, 0.0), radius: UNIT };
    assert!(a.check_sphere_collision(&b));
    let cd = a.check_sphere_collision_details(&b).expect("touching counts");
    assert_eq!(cd.penetration, 0);
}

#[test]
fn sphere_sphere_disjoint() {
    let a = Sphere { center: v(0.0, 0.0, 0.0), radius: UNIT };
    let b = Sphere { center: v(2.5, 0.0, 0.0), radius: fx(1.4) };
    assert!(!a.check_sphere_collision(&b));
    assert!(a.check_sphere_collision_details(&b).is_none());
}

#[test]
fn symmetry_of_every_pair() {
    let boxes = [
        unit_box(0.0, 0.0, 0.0),
        unit_box(1.5, 0.3, -0.2),
        unit_box(3.0, 0.0, 0.0),
        BoundingBox::new_rotated(v(0.5, 0.0, 0.0), v(1.0, 2.0, 0.5), rot_y(30.0)),
        BoundingBox::new_rotated(v(2.5, 0.0, 0.0), v(1.0, 1.0, 1.0), rot_y(45.0)),
    ];
    let spheres = [
        Sphere { center: v(0.0, 0.0, 0.0), radius: UNIT },
        Sphere { center: v(1.2, 0.4, 0.0), radius: fx(0.7) },
        Sphere { center: v(4.0, 0.0, 0.0), radius: fx(0.5) },
    ];
    for a in boxes.iter() {
        for b in boxes.iter() {
            assert_eq!(a.check_static_collision(b), b.check_static_collision(a));
        }
        for s in spheres.iter() {
            assert_eq!(a.check_static_collision(s), s.check_static_collision(a));
        }
    }
    for s1 in spheres.iter() {
        for s2 in spheres.iter() {
            assert_eq!(s1.check_static_collision(s2), s2.check_static_collision(s1));
        }
    }
}

#[test]
fn extents_are_absolute_valued() {
    let a = BoundingBox::new(v(0.2, 0.0, 0.0), v(-1.0, 2.0, -3.0));
    let b = BoundingBox::new(v(0.2, 0.0, 0.0), v(1.0, 2.0, 3.0));
    assert_eq!(a.center(), b.center());
    assert_eq!(a.extents(), b.extents());
    assert_eq!(a.rotation(), b.rotation());
    assert_eq!(a.extents(), v(1.0, 2.0, 3.0));
    let ra = BoundingBox::new_rotated(v(0.0, 0.0, 0.0), v(-1.0, 2.0, -3.0), rot_y(10.0));
    let rb = BoundingBox::new_rotated(v(0.0, 0.0, 0.0), v(1.0, 2.0, 3.0), rot_y(10.0));
    assert_eq!(ra.extents(), rb.extents());
    assert_eq!(ra.rotation(), rb.rotation());
}

#[test]
fn corner_enumeration_is_deterministic() {
    let b = unit_box(0.0, 0.0, 0.0);
    let vs = b.get_vertices();
    assert_eq!(vs.len(), 8);
    assert_eq!(vs[0], Vec3 { x: UNIT, y: UNIT, z: UNIT });
    assert_eq!(vs[1], Vec3 { x: -UNIT, y: UNIT, z: UNIT });
    assert_eq!(vs[2], Vec3 { x: UNIT, y: -UNIT, z: UNIT });
    assert_eq!(vs[3], Vec3 { x: -UNIT, y: -UNIT, z: UNIT });
    assert_eq!(vs[4], Vec3 { x: UNIT, y: UNIT, z: -UNIT });
    assert_eq!(vs[7], Vec3 { x: -UNIT, y: -UNIT, z: -UNIT });
}

#[test]
fn rotation_can_be_reassigned() {
    let mut b = unit_box(0.0, 0.0, 0.0);
    assert!(b.rotation().is_none());
    b.set_rotation(rot_y(45.0));
    assert!(b.rotation().is_some());
    // Once rotated, the box-box dispatch goes through SAT and the 45-degree
    // gap of the edge-separation scenario opens up.
    let other = unit_box(2.5, 0.0, 0.0);
    assert!(!b.check_static_collision(&other));
}

#[test]
fn sphere_point_and_inflation() {
    let s = Sphere { center: v(0.0, 0.0, 0.0), radius: UNIT };
    assert!(s.check_point_collision(&v(0.5, 0.5, 0.5)));
    assert!(s.check_point_collision(&v(1.0, 0.0, 0.0)));
    assert!(!s.check_point_collision(&v(1.0, 1.0, 0.0)));
    let grown = s.inflated(UNIT / 2);
    assert_eq!(grown.radius, UNIT + UNIT / 2);
    assert_eq!(grown.center, s.center);
    assert!(grown.check_point_collision(&v(1.0, 1.0, 0.0)));
}
