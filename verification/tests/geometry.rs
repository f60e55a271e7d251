//! Vector algebra and color arithmetic.

use raytracer::geometry::{Color, Point, Vector};
use raytracer::scene::Ray;

#[test]
fn test_add() {
    let v1 = Vector::new(1000, 2000, 3000);
    let v2 = v1.add(v1);
    assert_eq!(Vector::new(2000, 4000, 6000), v2)
}

#[test]
fn test_sub() {
    let v1 = Vector::new(1000, 2000, 3000);
    let v2 = v1.sub(v1);
    assert_eq!(Vector::new(0, 0, 0), v2)
}

#[test]
fn test_mul() {
    let v1 = Vector::new(1000, 2000, 3000);
    let v2 = v1.mul(2000);
    assert_eq!(Vector::new(2000, 4000, 6000), v2)
}

#[test]
fn test_div() {
    let v1 = Vector::new(1000, 2000, 3000);
    let v2 = v1.div(2000);
    assert_eq!(Vector::new(500, 1000, 1500), v2)
}

#[test]
fn color_addition_saturates() {
    let a = Color(200, 100, 255);
    let b = Color(100, 10, 1);
    assert_eq!(a.add(b), Color(255, 110, 255));
    let black = Color(0, 0, 0);
    assert_eq!(black.add(black), Color(0, 0, 0));
    assert_eq!(Color(255, 255, 255).add(Color(255, 255, 255)), Color(255, 255, 255));
}

#[test]
fn norm_of_pythagorean_triple() {
    assert_eq!(Vector::new(3000, 4000, 0).norm(), 5000);
    assert_eq!(Vector::new(0, 0, 2000).norm(), 2000);
}

#[test]
fn normalize_axis_vector() {
    let n = Vector::new(2000, 0, 0).normalize();
    assert_eq!(n.vector(), Vector::new(1000, 0, 0));
    let m = Vector::new(0, -7000, 0).normalize();
    assert_eq!(m.vector(), Vector::new(0, -1000, 0));
}

#[test]
fn normalize_keeps_unit_length() {
    // The unit-length analog of the normalization law: for vectors of
    // at least one unit of magnitude, the normalized vector's length
    // is one, up to fixed-point rounding.  (Sub-unit vectors carry too
    // few raw steps to aim precisely; their direction is still unit
    // length by the type's invariant, within a factor of two.)
    for v in [
        Vector::new(1234, -5678, 91011),
        Vector::new(2000, 1000, 500),
        Vector::new(-99999, 12345, 4),
        Vector::new(700, 100, 700),
    ] {
        let n = v.normalize().vector();
        let n2 = (n.x * n.x + n.y * n.y + n.z * n.z) as f64;
        let len = n2.sqrt() / 1000.0;
        assert!((len - 1.0).abs() < 0.01, "norm was {}", len);
    }
}

#[test]
fn reflection_reverses_head_on_ray() {
    let ray = Ray {
        energy: 1000,
        origin: Point(0, 0, 0),
        direction: Vector::new(1000, 0, 0).normalize(),
    };
    let normal = Vector::new(-1000, 0, 0).normalize();
    let r = ray.reflected(&normal);
    assert_eq!(r.vector(), Vector::new(-1000, 0, 0));
}

#[test]
fn reflection_grazing_keeps_direction() {
    let ray = Ray {
        energy: 1000,
        origin: Point(0, 0, 0),
        direction: Vector::new(1000, 0, 0).normalize(),
    };
    let normal = Vector::new(0, 0, 1000).normalize();
    let r = ray.reflected(&normal);
    assert_eq!(r.vector(), Vector::new(1000, 0, 0));
}
