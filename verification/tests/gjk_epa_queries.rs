//! Scenario tests for the GJK and EPA engines, including their agreement
//! with the SAT details path.
use collision_core::bounds::BoundingBox;
use collision_core::convex_hull::{get_support, gjk, gjk_classified, gjk_epa, GjkOutcome};
use collision_core::math::{Mat3, Vec3, UNIT};
use collision_core::sphere::Sphere;

fn fx(a: f64) -> i64 {
    (a * UNIT as f64).round() as i64
}

fn v(x: f64, y: f64, z: f64) -> Vec3 {
    Vec3 { x: fx(x), y: fx(y), z: fx(z) }
}

fn unit_box(cx: f64, cy: f64, cz: f64) -> BoundingBox {
    BoundingBox::new(v(cx, cy, cz), v(1.0, 1.0, 1.0))
}

fn rot_y(deg: f64) -> Mat3 {
    let rad = deg.to_radians();
    let c = rad.cos();
    let s = rad.sin();
    Mat3 {
        x_axis: v(c, 0.0, -s),
        y_axis: v(0.0, 1.0, 0.0),
        z_axis: v(s, 0.0, c),
    }
}

#[test]
fn support_function_picks_extreme_corner() {
    let a = unit_box(0.0, 0.0, 0.0);
    let b = unit_box(1.5, 0.0, 0.0);
    // The Minkowski support along +X is A's +X face minus B's -X face.
    let s = get_support(&a, &b, &Vec3 { x: UNIT, y: 0, z: 0 });
    assert_eq!(s.x, UNIT - (fx(1.5) - UNIT));
}

#[test]
fn gjk_finds_overlap() {
    let a = unit_box(0.0, 0.0, 0.0);
    let b = unit_box(1.5, 0.0, 0.0);
    let s = gjk(&a, &b).expect("overlapping boxes");
    assert!(s.count == 4 || s.count == 1);
}

#[test]
fn gjk_rejects_disjoint() {
    let a = unit_box(0.0, 0.0, 0.0);
    let b = unit_box(3.0, 0.0, 0.0);
    assert!(gjk(&a, &b).is_none());
    assert!(gjk_epa(&a, &b).is_none());
}

#[test]
fn gjk_agrees_with_sat_on_box_scenarios() {
    let pairs = [
        (unit_box(0.0, 0.0, 0.0), unit_box(3.0, 0.0, 0.0)),
        (unit_box(0.0, 0.0, 0.0), unit_box(1.5, 0.0, 0.0)),
        (unit_box(0.0, 0.0, 0.0), unit_box(0.3, 0.7, -0.2)),
        (unit_box(0.0, 0.0, 0.0), unit_box(2.5, 0.0, 0.0)),
        (
            BoundingBox::new_rotated(v(0.0, 0.0, 0.0), v(1.0, 1.0, 1.0), rot_y(45.0)),
            unit_box(2.5, 0.0, 0.0),
        ),
        (
            BoundingBox::new_rotated(v(0.0, 0.0, 0.0), v(1.0, 1.0, 1.0), rot_y(45.0)),
            unit_box(2.0, 0.0, 0.0),
        ),
        (
            BoundingBox::new_rotated(v(0.5, 0.2, 0.0), v(1.0, 2.0, 0.5), rot_y(30.0)),
            unit_box(1.2, 0.0, 0.4),
        ),
    ];
    for (a, b) in pairs.iter() {
        assert_eq!(a.obb_collision(b), gjk(a, b).is_some());
    }
}

#[test]
fn epa_agrees_with_sat_details() {
    let a = unit_box(0.0, 0.0, 0.0);
    let b = unit_box(1.5, 0.0, 0.0);
    let cd = gjk_epa(&a, &b).expect("overlapping boxes");
    // SAT reports half a unit of signed overlap on the X axis; EPA must
    // find the same depth (within 1e-3 of a unit) along +-X, with the
    // normal pointing from B toward A.
    let eps = (0.001 * UNIT as f64) as i64;
    assert!((cd.penetration - UNIT / 2).abs() <= eps, "penetration {}", cd.penetration);
    assert!((cd.normal.x.abs() - UNIT).abs() <= 700, "normal {:?}", cd.normal);
    assert!(cd.normal.y.abs() <= 700 && cd.normal.z.abs() <= 700);
    assert!(cd.normal.x < 0);
}

#[test]
fn epa_touching_reports_zero() {
    // Boxes touching face to face along the seed axis: the first Minkowski
    // support is the origin itself, and the zero report is mandated.
    let a = unit_box(0.0, 0.0, 0.0);
    let b = unit_box(2.0, 0.0, 0.0);
    let cd = gjk_epa(&a, &b).expect("touching boxes collide");
    assert_eq!(cd.penetration, 0);
    assert_eq!(cd.normal, Vec3 { x: 0, y: 0, z: 0 });
}

#[test]
fn classified_outcomes() {
    let a = unit_box(0.0, 0.0, 0.0);
    let disjoint = unit_box(3.0, 0.0, 0.0);
    assert!(matches!(gjk_classified(&a, &disjoint), GjkOutcome::Separated(_)));
    let overlapping = unit_box(1.5, 0.0, 0.0);
    assert!(matches!(gjk_classified(&a, &overlapping), GjkOutcome::Intersecting(_)));
    let rotated = BoundingBox::new_rotated(v(0.0, 0.0, 0.0), v(1.0, 1.0, 1.0), rot_y(45.0));
    let beyond = unit_box(2.5, 0.0, 0.0);
    assert!(matches!(gjk_classified(&rotated, &beyond), GjkOutcome::Separated(_)));
}

#[test]
fn gjk_epa_on_spheres() {
    let a = Sphere { center: v(0.0, 0.0, 0.0), radius: UNIT };
    let b = Sphere { center: v(1.5, 0.0, 0.0), radius: UNIT };
    assert!(gjk(&a, &b).is_some());
    let cd = gjk_epa(&a, &b).expect("overlapping spheres");
    let eps = (0.01 * UNIT as f64) as i64;
    assert!((cd.penetration - UNIT / 2).abs() <= eps, "penetration {}", cd.penetration);
    let far = Sphere { center: v(3.0, 0.0, 0.0), radius: UNIT };
    assert!(gjk(&a, &far).is_none());
}

#[test]
fn gjk_epa_box_against_sphere() {
    let a = unit_box(0.0, 0.0, 0.0);
    let s = Sphere { center: v(2.0, 0.0, 0.0), radius: fx(1.1) };
    assert!(gjk(&a, &s).is_some());
    let cd = gjk_epa(&a, &s).expect("shallow contact");
    let eps = (0.01 * UNIT as f64) as i64;
    assert!((cd.penetration - fx(0.1)).abs() <= eps, "penetration {}", cd.penetration);
    let far = Sphere { center: v(3.0, 0.0, 0.0), radius: fx(0.5) };
    assert!(gjk(&a, &far).is_none());
}
