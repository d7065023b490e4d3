use ray_tracer::fixed::FX_ONE;
use ray_tracer::vec3::Vec3;

#[test]
fn basics() {
    // constructor
    let mut v1 = Vec3::new(1 * FX_ONE, 2 * FX_ONE, 3 * FX_ONE);
    let v2 = Vec3::new(5 * FX_ONE, 4 * FX_ONE, 3 * FX_ONE);
    // x, y, z
    assert_eq!(v1.x(), 1 * FX_ONE);
    assert_eq!(v1.y(), 2 * FX_ONE);
    assert_eq!(v1.z(), 3 * FX_ONE);
    // negate
    v1 = v1.neg();
    assert_eq!(v1.x(), -1 * FX_ONE);
    assert_eq!(v1.y(), -2 * FX_ONE);
    assert_eq!(v1.z(), -3 * FX_ONE);
    // add-assign
    v1 = v1.add(v2);
    assert_eq!(v1.x(), 4 * FX_ONE);
    // index
    assert_eq!(v1.index(2), 0);
    // index mut
    v1.set(1, 16 * FX_ONE);
    assert_eq!(v1.y(), 16 * FX_ONE);
    // length
    let mut v3 = Vec3::new(3 * FX_ONE, 3 * FX_ONE, 3 * FX_ONE);
    assert_eq!(v3.length(), 5_196_152);
    v3 = v3.scale(3 * FX_ONE);
    assert_eq!(v3.x(), 9 * FX_ONE);
    let n1: i128 = 2_500_000;
    // mult scalar * vec3
    let v4 = v3.scale(n1);
    assert_eq!(v4.z(), 22_500_000);

    let v5 = v2.add(v3);
    assert_eq!(v5.x(), 14 * FX_ONE);
}

#[test]
fn dot_and_cross() {
    let a = Vec3::new(1 * FX_ONE, 0, 0);
    let b = Vec3::new(0, 1 * FX_ONE, 0);
    assert_eq!(Vec3::dot(a, b), 0);
    assert_eq!(Vec3::dot(a, a), FX_ONE);
    let c = Vec3::cross(a, b);
    assert_eq!(c, Vec3::new(0, 0, FX_ONE));
    let d = Vec3::cross(b, a);
    assert_eq!(d, Vec3::new(0, 0, -FX_ONE));
}

#[test]
fn unit_vector_has_unit_length() {
    // an exact case: a 3-4-0 triangle normalizes exactly
    let v = Vec3::new(3 * FX_ONE, 4 * FX_ONE, 0);
    let u = Vec3::unit_vector(v);
    assert_eq!(u, Vec3::new(600_000, 800_000, 0));
    assert_eq!(u.length_squared(), FX_ONE);
    // an inexact case stays within the proved tolerance of one
    let w = Vec3::unit_vector(Vec3::new(FX_ONE, FX_ONE, FX_ONE));
    assert_eq!(w, Vec3::new(577_350, 577_350, 577_350));
    let err = w.length_squared() - FX_ONE;
    assert!(err.abs() <= 16, "unit length off by {err}");
    // a large inexact case
    let q = Vec3::unit_vector(Vec3::new(123_456_789, -987_654_321, 555_555_555));
    let err2 = q.length_squared() - FX_ONE;
    assert!(err2.abs() <= 16, "unit length off by {err2}");
}

#[test]
fn reflect_flips_normal_component() {
    // an exact case against an axis normal
    let v = Vec3::new(1 * FX_ONE, -2 * FX_ONE, 3 * FX_ONE);
    let n = Vec3::new(0, 0, FX_ONE);
    let r = Vec3::reflect(v, n);
    assert_eq!(r, Vec3::new(1 * FX_ONE, -2 * FX_ONE, -3 * FX_ONE));
    assert_eq!(Vec3::dot(r, n), -Vec3::dot(v, n));
    // an inexact unit normal stays within the proved tolerance
    let n2 = Vec3::unit_vector(Vec3::new(FX_ONE, FX_ONE, 0));
    let v2 = Vec3::new(250_000, -125_000, 775_000);
    let r2 = Vec3::reflect(v2, n2);
    let lhs = Vec3::dot(r2, n2) + Vec3::dot(v2, n2);
    let bound = (14 * Vec3::dot(v2, n2).abs() + 12 * FX_ONE) / FX_ONE;
    assert!(lhs.abs() <= bound, "reflect law off by {lhs}");
}

#[test]
fn near_zero_detects_degenerate_directions() {
    assert!(Vec3::new(0, 0, 0).near_zero());
    assert!(!Vec3::new(1, 0, 0).near_zero());
    assert!(!Vec3::new(0, -1, 0).near_zero());
}

#[test]
fn random_unit_vectors_stay_near_unit_length() {
    let mut rng = ray_tracer::rng::rng_from_entropy();
    for _ in 0..50 {
        let u = Vec3::rand_unit_vector(&mut rng);
        let err = u.length_squared() - FX_ONE;
        assert!(err.abs() <= 27, "unit sample off by {err}");
    }
}

#[test]
fn refract_straight_through() {
    // head-on refraction bends nothing: uv = -n
    let n = Vec3::new(0, 0, FX_ONE);
    let uv = Vec3::new(0, 0, -FX_ONE);
    let r = Vec3::refract(uv, n, FX_ONE);
    assert_eq!(r, Vec3::new(0, 0, -FX_ONE));
}
