//! Fixed-point tuple and matrix algebra against known values.
use ray_tracer_challenge::fx::{fx_equal, fx_sqrt, EQUAL_EPSILON, SCALE};
use ray_tracer_challenge::matrices::{determinant, identity_matrix, inverse, matrix4, Matrix};
use ray_tracer_challenge::transformations::{scaling, translation};
use ray_tracer_challenge::tuples::{cross, dot, normalize, point, reflect, tuple, vector, Tuple};

fn fx(x: f64) -> i64 {
    (x * 100000.0).round() as i64
}

fn close(a: i64, b: f64, tol: f64) {
    let av = a as f64 / 100000.0;
    assert!((av - b).abs() < tol, "{} vs {}", av, b);
}

#[test]
fn tuple_arithmetic_matches_known_values() {
    let a = tuple(fx(3.0), fx(-2.0), fx(5.0), fx(1.0));
    let b = tuple(fx(-2.0), fx(3.0), fx(1.0), 0);
    let s = a.add(&b);
    assert_eq!(s, tuple(fx(1.0), fx(1.0), fx(6.0), fx(1.0)));
    let d = point(fx(3.0), fx(2.0), fx(1.0)).sub(&point(fx(5.0), fx(6.0), fx(7.0)));
    assert_eq!(d, vector(fx(-2.0), fx(-4.0), fx(-6.0)));
    assert_eq!(a.neg(), tuple(fx(-3.0), fx(2.0), fx(-5.0), fx(-1.0)));
    assert_eq!(a.scale(fx(3.5)), tuple(fx(10.5), fx(-7.0), fx(17.5), fx(3.5)));
    assert_eq!(a.div_by(fx(2.0)), tuple(fx(1.5), fx(-1.0), fx(2.5), fx(0.5)));
}

#[test]
fn dot_and_cross_of_unit_axes() {
    let a = vector(fx(1.0), fx(2.0), fx(3.0));
    let b = vector(fx(2.0), fx(3.0), fx(4.0));
    assert_eq!(dot(&a, &b), fx(20.0));
    assert_eq!(cross(&a, &b), vector(fx(-1.0), fx(2.0), fx(-1.0)));
    assert_eq!(cross(&b, &a), vector(fx(1.0), fx(-2.0), fx(1.0)));
}

#[test]
fn normalizing_scales_to_unit_magnitude() {
    let v = vector(fx(4.0), 0, 0);
    assert_eq!(normalize(&v), vector(fx(1.0), 0, 0));
    let v2 = vector(fx(1.0), fx(2.0), fx(3.0));
    let n = normalize(&v2);
    close(n.magnitude(), 1.0, 1e-4);
}

#[test]
fn reflecting_at_a_flat_surface() {
    let v = vector(fx(1.0), fx(-1.0), 0);
    let n = vector(0, fx(1.0), 0);
    assert_eq!(reflect(&v, &n), vector(fx(1.0), fx(1.0), 0));
}

#[test]
fn sqrt_is_the_floor_square_root() {
    assert_eq!(fx_sqrt(fx(4.0)), fx(2.0));
    assert_eq!(fx_sqrt(fx(9.0)), fx(3.0));
    assert_eq!(fx_sqrt(0), 0);
    close(fx_sqrt(fx(2.0)), 1.41421, 1e-4);
}

#[test]
fn matrix_multiplication_against_known_product() {
    let a: Matrix = matrix4([
        [fx(1.0), fx(2.0), fx(3.0), fx(4.0)],
        [fx(5.0), fx(6.0), fx(7.0), fx(8.0)],
        [fx(9.0), fx(8.0), fx(7.0), fx(6.0)],
        [fx(5.0), fx(4.0), fx(3.0), fx(2.0)],
    ]);
    let b: Matrix = matrix4([
        [fx(-2.0), fx(1.0), fx(2.0), fx(3.0)],
        [fx(3.0), fx(2.0), fx(1.0), fx(-1.0)],
        [fx(4.0), fx(3.0), fx(6.0), fx(5.0)],
        [fx(1.0), fx(2.0), fx(7.0), fx(8.0)],
    ]);
    let c = a.mul(&b);
    assert_eq!(c.m00, fx(20.0));
    assert_eq!(c.m01, fx(22.0));
    assert_eq!(c.m02, fx(50.0));
    assert_eq!(c.m03, fx(48.0));
    assert_eq!(c.m30, fx(16.0));
    assert_eq!(c.m33, fx(42.0));
    // The identity is neutral.
    let i = identity_matrix();
    let ai = a.mul(&i);
    assert_eq!(ai, a);
}

#[test]
fn determinant_and_inverse_of_a_known_matrix() {
    let a: Matrix = matrix4([
        [fx(6.0), fx(4.0), fx(4.0), fx(4.0)],
        [fx(5.0), fx(5.0), fx(7.0), fx(6.0)],
        [fx(4.0), fx(-9.0), fx(3.0), fx(-7.0)],
        [fx(9.0), fx(1.0), fx(7.0), fx(-6.0)],
    ]);
    assert_eq!(determinant(&a), fx(-2120.0));
    // Multiplying by the inverse lands within rounding of the identity.
    let inv = inverse(&a);
    let prod = a.mul(&inv);
    let i = identity_matrix();
    for (p, e) in [
        (prod.m00, i.m00),
        (prod.m11, i.m11),
        (prod.m22, i.m22),
        (prod.m33, i.m33),
        (prod.m01, i.m01),
        (prod.m12, i.m12),
    ] {
        assert!((p - e).abs() < 50, "{} vs {}", p, e);
    }
}

#[test]
fn transform_constructors_move_points_as_expected() {
    let t = translation(fx(5.0), fx(-3.0), fx(2.0));
    let p = point(fx(-3.0), fx(4.0), fx(5.0));
    assert_eq!(t.mul_tuple(&p), point(fx(2.0), fx(1.0), fx(7.0)));
    // A vector is unmoved by translation.
    let v = vector(fx(-3.0), fx(4.0), fx(5.0));
    assert_eq!(t.mul_tuple(&v), v);
    let s = scaling(fx(2.0), fx(3.0), fx(4.0));
    assert_eq!(s.mul_tuple(&p), point(fx(-6.0), fx(12.0), fx(20.0)));
}

#[test]
fn approximate_equality_respects_its_tolerance() {
    assert!(fx_equal(fx(1.0), fx(1.0) + EQUAL_EPSILON - 1));
    assert!(!fx_equal(fx(1.0), fx(1.0) + SCALE));
}
