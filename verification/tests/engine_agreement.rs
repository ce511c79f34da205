//! The three box-box engines — closed-form AABB, SAT, and GJK — agree over a
//! grid of unrotated configurations, including exact-touching ones.
use collision_core::bounds::BoundingBox;
use collision_core::convex_hull::gjk;
use collision_core::math::{Vec3, UNIT};
use collision_core::static_collision::StaticCollision;

fn fx(a: f64) -> i64 {
    (a * UNIT as f64).round() as i64
}

fn v(x: f64, y: f64, z: f64) -> Vec3 {
    Vec3 { x: fx(x), y: fx(y), z: fx(z) }
}

#[test]
fn sat_matches_aabb_on_a_grid() {
    let a = BoundingBox::new(v(0.0, 0.0, 0.0), v(1.0, 0.5, 2.0));
    let mut checked = 0;
    for ix in -6..7 {
        for iy in -4..5 {
            for iz in -6..7 {
                let b = BoundingBox::new(
                    Vec3 { x: ix * UNIT / 2, y: iy * UNIT / 2, z: iz * UNIT / 2 },
                    v(1.0, 1.0, 1.0),
                );
                assert_eq!(a.aabb_collision(&b), a.obb_collision(&b), "at {ix},{iy},{iz}");
                assert_eq!(
                    a.aabb_collision_details(&b).is_some(),
                    a.obb_collision_details(&b).is_some(),
                    "at {ix},{iy},{iz}"
                );
                checked += 1;
            }
        }
    }
    assert_eq!(checked, 13 * 9 * 13);
}

#[test]
fn gjk_matches_sat_on_a_grid() {
    let a = BoundingBox::new(v(0.0, 0.0, 0.0), v(1.0, 1.0, 1.0));
    for ix in -5..6 {
        for iy in -5..6 {
            let b = BoundingBox::new(
                Vec3 { x: ix * UNIT / 2, y: iy * UNIT / 2, z: 0 },
                v(1.0, 1.0, 1.0),
            );
            assert_eq!(
                a.obb_collision(&b),
                gjk(&a, &b).is_some(),
                "at {ix},{iy}"
            );
        }
    }
}

#[test]
fn dispatch_is_symmetric_on_a_grid() {
    let a = BoundingBox::new(v(0.0, 0.0, 0.0), v(1.0, 2.0, 0.5));
    for ix in -5..6 {
        for iz in -5..6 {
            let b = BoundingBox::new(
                Vec3 { x: ix * UNIT / 2, y: 0, z: iz * UNIT / 2 },
                v(1.5, 1.0, 1.0),
            );
            assert_eq!(a.check_static_collision(&b), b.check_static_collision(&a));
        }
    }
}
