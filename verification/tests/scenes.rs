//! The ready-made scenes build and render.

use raytracer::engine::Engine;
use raytracer::geometry::Color;

#[test]
fn ready_made_sphere_scene_renders() {
    let scene = raytracer::scene1::get(3, 3);
    let mut engine = Engine::new(scene);
    engine.set_intersect();
    let img = engine.render();
    assert_eq!(img.height(), 3);
    assert_eq!(img.width(), 3);
    // The sky sphere surrounds the camera, so no pixel stays at the
    // background black.
    let mut lit = 0;
    for x in 0..3 {
        for y in 0..3 {
            if img.get(x, y) != Color(0, 0, 0) {
                lit += 1;
            }
        }
    }
    assert_eq!(lit, 9);
}

#[test]
fn narrow_angle_scene_builds() {
    let scene = raytracer::premade_scenes::scene1::get(2, 2);
    let engine = Engine::new(scene);
    let img = engine.render();
    assert_eq!(img.height(), 2);
}

#[test]
fn mixed_scene_builds() {
    let scene = raytracer::premade_scenes::scene2::get(2, 2);
    let mut engine = Engine::new(scene);
    engine.set_diffuse();
    engine.set_ambient((400, 400, 400));
    let img = engine.render();
    assert_eq!(img.width(), 2);
}
