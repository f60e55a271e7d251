//! Ray/primitive intersection scenarios.

use raytracer::geometry::{Color, Point, Vector};
use raytracer::scene::cylinder::Cylinder;
use raytracer::scene::ray::Ray;
use raytracer::scene::sphere::Sphere;
use raytracer::scene::texture::{Texture, UniformTexture};
use raytracer::scene::triangle::Triangle;

fn white() -> Texture {
    Texture::Uniform(UniformTexture::new(Color(255, 255, 255), 0, 0))
}

fn ray_from(origin: Point, dir: Vector) -> Ray {
    Ray { energy: 1000, origin, direction: dir.normalize() }
}

#[test]
fn sphere_intersects_true() {
    let s = Sphere::new(Point(2000, 0, 0), 1000, white());
    let ray = ray_from(Point(0, 0, 0), Vector::new(1000, 0, 0));
    assert!(s.intersects(ray).is_some())
}

#[test]
fn sphere_hit_distance_is_one_unit() {
    let s = Sphere::new(Point(2000, 0, 0), 1000, white());
    let ray = ray_from(Point(0, 0, 0), Vector::new(1000, 0, 0));
    assert_eq!(s.intersects(ray), Some(1000));
}

#[test]
fn intersects_false() {
    let s = Sphere::new(Point(5000, 5000, 5000), 1000, white());
    let ray = ray_from(Point(0, 0, 0), Vector::new(1000, 0, 0));
    assert!(s.intersects(ray).is_none())
}

#[test]
fn triangle_intersects_true() {
    let t = Triangle::new(
        (Point(1000, 0, 5000), Point(-1000, -1000, 5000), Point(-1000, 1000, 5000)),
        white(),
    );
    let ray = ray_from(Point(0, 0, 0), Vector::new(0, 0, 1000));
    assert!(t.intersects(ray).is_some())
}

#[test]
fn triangle_hit_distance_is_five_units() {
    let t = Triangle::new(
        (Point(1000, 0, 5000), Point(-1000, -1000, 5000), Point(-1000, 1000, 5000)),
        white(),
    );
    let ray = ray_from(Point(0, 0, 0), Vector::new(0, 0, 1000));
    assert_eq!(t.intersects(ray), Some(5000));
}

#[test]
fn intersects_false_colinear() {
    let t = Triangle::new(
        (Point(-500, 0, 5000), Point(500, 1000, 5000), Point(500, -1000, 5000)),
        white(),
    );
    let ray = ray_from(Point(0, 0, 0), Vector::new(1000, 0, 0));
    assert!(t.intersects(ray).is_none())
}

#[test]
fn intersects_false_non_colinear() {
    let t = Triangle::new(
        (Point(-500, 0, 5000), Point(500, 1000, 5000), Point(500, -1000, 5000)),
        white(),
    );
    let ray = ray_from(Point(2000, 2000, 0), Vector::new(0, 0, 5000));
    assert!(t.intersects(ray).is_none())
}

#[test]
fn cylinder_cap_hit_along_axis() {
    let c = Cylinder::new(Point(0, 0, 2000), Point(0, 0, 4000), 1000, white());
    let ray = ray_from(Point(0, 0, 0), Vector::new(0, 0, 1000));
    assert_eq!(c.intersects(ray), Some(2000));
}

#[test]
fn cylinder_lateral_hit() {
    let c = Cylinder::new(Point(0, 0, 2000), Point(0, 0, 4000), 1000, white());
    let ray = ray_from(Point(-5000, 0, 3000), Vector::new(1000, 0, 0));
    assert_eq!(c.intersects(ray), Some(4000));
}

#[test]
fn cylinder_miss_beside_segment() {
    let c = Cylinder::new(Point(0, 0, 2000), Point(0, 0, 4000), 1000, white());
    let ray = ray_from(Point(-5000, 0, 10_000), Vector::new(1000, 0, 0));
    assert!(c.intersects(ray).is_none());
}

#[test]
fn sphere_inside_returns_far_root() {
    let s = Sphere::new(Point(0, 0, 0), 2000, white());
    let ray = ray_from(Point(0, 0, 0), Vector::new(0, 0, 1000));
    assert_eq!(s.intersects(ray), Some(2000));
}
