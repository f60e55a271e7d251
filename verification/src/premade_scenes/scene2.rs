//! A mixed scene: three small spheres, a large background triangle,
//! and a yellow triangle structure in the foreground.

use vstd::prelude::*;
use crate::geometry::{Color, Point, Vector};
use crate::num::SCALE;
use crate::scene::Camera;
use crate::scene::Object;
use crate::scene::Scene;
use crate::scene::Sphere;
use crate::scene::Triangle;
use crate::scene::light::PointLight;
use crate::scene::texture::Texture;
use crate::scene::texture::UniformTexture;

verus! {

/// Build the scene at the given resolution.
#[verifier::rlimit(100)]
pub fn get(res_x: usize, res_y: usize) -> (r: Scene)
    requires
        1 <= res_x <= 10_000,
        1 <= res_y <= 10_000,
    ensures
        r.wf(),
        r.cam.spec_height() == res_x,
        r.cam.spec_width() == res_y,
        r.lights@.len() == 1,
        r.objects@.len() == 7,
{
    proof {
        crate::geometry::vector::lemma_norm2_pos(
            crate::geometry::vector::spec_from(Point(0, 0, 0), Point(0, 0, (8 * SCALE) as i64)),
        );
    }
    let cam = Camera::new(
        Point(0, 0, 0),
        Point(0, 0, 8 * SCALE),
        Vector::new(SCALE, 0, 0).normalize(),
        90_000,
        90_000,
        2 * SCALE,
        res_x,
        res_y,
    );
    let mut objs: Vec<Object> = Vec::new();
    objs.push(
        Object::Sphere(
            Sphere::new(
                Point(0, 1_500, 11 * SCALE),
                SCALE,
                Texture::Uniform(UniformTexture::new(Color(255, 0, 0), 1000, 1000)),
            ),
        ),
    );
    objs.push(
        Object::Sphere(
            Sphere::new(
                Point(0, -500, 9 * SCALE),
                500,
                Texture::Uniform(UniformTexture::new(Color(0, 255, 0), 1000, 1000)),
            ),
        ),
    );
    objs.push(
        Object::Sphere(
            Sphere::new(
                Point(0, -1_500, 5 * SCALE),
                200,
                Texture::Uniform(UniformTexture::new(Color(0, 255, 0), 1000, 1000)),
            ),
        ),
    );
    objs.push(
        Object::Triangle(
            Triangle::new(
                (Point(10 * SCALE, 0, 16 * SCALE), Point(0, -10 * SCALE, 15 * SCALE), Point(
                    -10 * SCALE,
                    10 * SCALE,
                    12 * SCALE,
                )),
                Texture::Uniform(UniformTexture::new(Color(0, 0, 255), 1000, 500)),
            ),
        ),
    );
    objs.push(
        Object::Triangle(
            Triangle::new(
                (Point(SCALE, 0, 6 * SCALE), Point(0, -SCALE, 8 * SCALE), Point(
                    -SCALE,
                    0,
                    6 * SCALE,
                )),
                Texture::Uniform(UniformTexture::new(Color(255, 255, 0), 1000, 1000)),
            ),
        ),
    );
    objs.push(
        Object::Triangle(
            Triangle::new(
                (Point(SCALE, 0, 6 * SCALE), Point(0, SCALE, 8 * SCALE), Point(
                    -SCALE,
                    0,
                    6 * SCALE,
                )),
                Texture::Uniform(UniformTexture::new(Color(255, 255, 0), 1000, 1000)),
            ),
        ),
    );
    objs.push(
        Object::Triangle(
            Triangle::new(
                (Point(SCALE, 0, 6 * SCALE), Point(0, -SCALE, 8 * SCALE), Point(
                    2 * SCALE,
                    -SCALE,
                    7 * SCALE,
                )),
                Texture::Uniform(UniformTexture::new(Color(255, 255, 0), 1000, 1000)),
            ),
        ),
    );
    let mut lights: Vec<PointLight> = Vec::new();
    lights.push(PointLight::new(Point(0, -2 * SCALE, 0), (1000, 1000, 1000)));
    proof {
        assert forall|i: int| 0 <= i < objs@.len() implies (#[trigger] objs@[i]).wf() by {
            if i == 0 {
            } else if i == 1 {
            } else if i == 2 {
            } else if i == 3 {
            } else if i == 4 {
            } else if i == 5 {
            } else {
            }
        };
        assert forall|i: int| 0 <= i < lights@.len() implies (#[trigger] lights@[i]).wf() by {}
    }
    Scene::new(cam, lights, objs)
}

} // verus!
