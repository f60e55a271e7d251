//! Shading, shadows, reflection and rendering.

use raytracer::engine::Engine;
use raytracer::geometry::{Color, Point, Vector};
use raytracer::scene::light::PointLight;
use raytracer::scene::ray::Ray;
use raytracer::scene::scene::{Object, Scene};
use raytracer::scene::sphere::Sphere;
use raytracer::scene::texture::{Texture, UniformTexture};
use raytracer::scene::triangle::Triangle;
use raytracer::scene::Camera;
use raytracer::engine::render::{ambient, diffusion, specularity};

fn matte_white() -> Texture {
    Texture::Uniform(UniformTexture::new(Color(255, 255, 255), 1000, 0))
}

fn floor_triangle() -> Object {
    Object::Triangle(Triangle::new(
        (
            Point(-10_000, -10_000, 0),
            Point(10_000, -10_000, 0),
            Point(0, 10_000, 0),
        ),
        matte_white(),
    ))
}

fn simple_camera() -> Camera {
    Camera::new(
        Point(0, 0, 0),
        Point(0, 0, 8000),
        Vector::new(1000, 0, 0).normalize(),
        90_000,
        90_000,
        2000,
        4,
        4,
    )
}

fn view_ray() -> Ray {
    Ray {
        energy: 1000,
        origin: Point(2000, 0, 2000),
        direction: Vector::new(-1000, 0, -1000).normalize(),
    }
}

#[test]
fn diffuse_light_above_surface() {
    // A point light straight above a flat surface, nothing in the way:
    // the diffuse term is positive.
    let scene = Scene::new(
        simple_camera(),
        vec![PointLight::new(Point(0, 0, 10_000), (1000, 1000, 1000))],
        vec![floor_triangle()],
    );
    let mut engine = Engine::new(scene);
    engine.set_diffuse();
    let c = engine.cast_ray(view_ray()).expect("the floor should be hit");
    assert!(c.0 > 0 && c.1 > 0 && c.2 > 0);
}

#[test]
fn diffuse_suppressed_by_occluder() {
    // The same surface with a sphere between the light and the hit
    // point: the shadow test suppresses the diffuse term.
    let occluder = Object::Sphere(Sphere::new(Point(0, 0, 5000), 2000, matte_white()));
    let scene = Scene::new(
        simple_camera(),
        vec![PointLight::new(Point(0, 0, 10_000), (1000, 1000, 1000))],
        vec![floor_triangle(), occluder],
    );
    let mut engine = Engine::new(scene);
    engine.set_diffuse();
    engine.set_specular();
    let c = engine.cast_ray(view_ray()).expect("the floor should still be hit");
    assert_eq!(c, Color(0, 0, 0));
}

#[test]
fn intersect_mode_ignores_lights() {
    // Intersect-only rendering reproduces the flat diffuse color of
    // the nearest object wherever the light stands.
    let ray = Ray {
        energy: 1000,
        origin: Point(0, 0, 0),
        direction: Vector::new(0, 0, 1000).normalize(),
    };
    let mut colors = Vec::new();
    for light_pos in [Point(0, 0, 10_000), Point(-9000, 4000, -2000)] {
        let scene = Scene::new(
            simple_camera(),
            vec![PointLight::new(light_pos, (1000, 1000, 1000))],
            vec![Object::Sphere(Sphere::new(
                Point(0, 0, 6000),
                2000,
                Texture::Uniform(UniformTexture::new(Color(255, 0, 0), 1000, 0)),
            ))],
        );
        let mut engine = Engine::new(scene);
        engine.set_intersect();
        colors.push(engine.cast_ray(ray).expect("the sphere should be hit"));
    }
    assert_eq!(colors[0], Color(255, 0, 0));
    assert_eq!(colors[1], Color(255, 0, 0));
}

#[test]
fn reflection_terminates_between_facing_mirrors() {
    // Two parallel mirrors facing each other: the energy budget stops
    // the recursion after at most one bounce, so casting terminates.
    let mirror = Texture::Uniform(UniformTexture::new(Color(200, 200, 200), 1000, 1000));
    let bottom = Object::Triangle(Triangle::new(
        (
            Point(-50_000, -50_000, 0),
            Point(50_000, -50_000, 0),
            Point(0, 50_000, 0),
        ),
        mirror,
    ));
    let mirror2 = Texture::Uniform(UniformTexture::new(Color(200, 200, 200), 1000, 1000));
    let top = Object::Triangle(Triangle::new(
        (
            Point(-50_000, -50_000, 10_000),
            Point(50_000, -50_000, 10_000),
            Point(0, 50_000, 10_000),
        ),
        mirror2,
    ));
    let scene = Scene::new(
        simple_camera(),
        vec![PointLight::new(Point(0, 0, 5000), (1000, 1000, 1000))],
        vec![bottom, top],
    );
    let mut engine = Engine::new(scene);
    engine.set_diffuse();
    engine.set_reflection();
    let c = engine.cast_ray(view_ray());
    assert!(c.is_some());
}

#[test]
fn render_empty_scene_is_black() {
    let scene = Scene::new(simple_camera(), Vec::new(), Vec::new());
    let engine = Engine::new(scene);
    let img = engine.render();
    assert_eq!(img.height(), 4);
    assert_eq!(img.width(), 4);
    for x in 0..4 {
        for y in 0..4 {
            assert_eq!(img.get(x, y), Color(0, 0, 0));
        }
    }
}

#[test]
fn render_sky_sphere_covers_every_pixel() {
    // A sky sphere around the camera with only the intersect mode:
    // every pixel carries the sphere's flat color.
    let sky = Object::Sphere(Sphere::new(
        Point(0, 0, 0),
        100_000,
        Texture::Uniform(UniformTexture::new(Color(10, 20, 30), 1000, 0)),
    ));
    let scene = Scene::new(
        simple_camera(),
        vec![PointLight::new(Point(0, 0, 5000), (1000, 1000, 1000))],
        vec![sky],
    );
    let mut engine = Engine::new(scene);
    engine.set_intersect();
    let img = engine.render();
    for x in 0..4 {
        for y in 0..4 {
            assert_eq!(img.get(x, y), Color(10, 20, 30));
        }
    }
}

#[test]
fn diffuse_formula_exact_value() {
    let up = Vector::new(0, 0, 2000).normalize();
    let c = diffusion::process(up, (1000, 1000, 1000), (255_000, 0, 128_000), up);
    // proportion is exactly one, so each channel is the diffuse factor
    // times the intensity: 255, 0 and 128.
    assert_eq!(c, Color(255, 0, 128));
}

#[test]
fn specular_formula_exact_value() {
    let up = Vector::new(0, 0, 2000).normalize();
    let c = specularity::process(up, (1000, 1000, 1000), 1000, up);
    // cosine one cubed, mean intensity 999 (each channel divided by
    // three first), so the grey level is 999 * 255 / 1000 truncated.
    assert_eq!(c, Color(254, 254, 254));
}

#[test]
fn ambient_formula_exact_value() {
    let c = ambient::process((1000, 1000, 1000), (400, 400, 400), (255_000, 255_000, 0));
    assert_eq!(c, Color(102, 102, 0));
}
