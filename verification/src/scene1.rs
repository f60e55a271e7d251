//! A ready-made scene: five spheres in front of the camera and a
//! sky sphere around everything, lit by one point light.

use vstd::prelude::*;
use crate::geometry::{Color, Point, Vector};
use crate::num::SCALE;
use crate::scene::Camera;
use crate::scene::Object;
use crate::scene::Scene;
use crate::scene::Sphere;
use crate::scene::light::PointLight;
use crate::scene::texture::Texture;
use crate::scene::texture::UniformTexture;

verus! {

/// Build the scene at the given resolution.
#[verifier::rlimit(100)]
pub fn get(res_x: usize, res_y: usize) -> (r: Scene)
    requires
        1 <= res_x <= 10_000,
        1 <= res_y <= 10_000,
    ensures
        r.wf(),
        r.cam.spec_height() == res_x,
        r.cam.spec_width() == res_y,
        r.lights@.len() == 1,
        r.objects@.len() == 6,
        forall|i: int|
            0 <= i < 6 ==> (#[trigger] r.objects@[i]) matches Object::Sphere(s),
{
    proof {
        crate::geometry::vector::lemma_norm2_pos(
            crate::geometry::vector::spec_from(Point(0, 0, 0), Point(0, 0, (8 * SCALE) as i64)),
        );
    }
    let cam = Camera::new(
        Point(0, 0, 0),
        Point(0, 0, 8 * SCALE),
        Vector::new(SCALE, 0, 0).normalize(),
        90_000,
        90_000,
        2 * SCALE,
        res_x,
        res_y,
    );
    let mut objs: Vec<Object> = Vec::new();
    objs.push(
        Object::Sphere(
            Sphere::new(
                Point(0, 0, 6 * SCALE),
                SCALE,
                Texture::Uniform(UniformTexture::new(Color(255, 0, 0), 1000, 1000)),
            ),
        ),
    );
    objs.push(
        Object::Sphere(
            Sphere::new(
                Point(3 * SCALE, -SCALE, 6 * SCALE),
                600,
                Texture::Uniform(UniformTexture::new(Color(255, 0, 0), 500, 500)),
            ),
        ),
    );
    objs.push(
        Object::Sphere(
            Sphere::new(
                Point(0, 0, 9 * SCALE),
                4 * SCALE,
                Texture::Uniform(UniformTexture::new(Color(0, 255, 0), 1000, 1000)),
            ),
        ),
    );
    objs.push(
        Object::Sphere(
            Sphere::new(
                Point(SCALE, SCALE, 6_300),
                700,
                Texture::Uniform(UniformTexture::new(Color(0, 0, 255), 1000, 1300)),
            ),
        ),
    );
    objs.push(
        Object::Sphere(
            Sphere::new(
                Point(-3_300, -3_300, 6 * SCALE),
                SCALE,
                Texture::Uniform(UniformTexture::new(Color(255, 255, 255), 1000, 1000)),
            ),
        ),
    );
    objs.push(
        Object::Sphere(
            Sphere::new(
                Point(0, 0, 0),
                1000 * SCALE,
                Texture::Uniform(UniformTexture::new(Color(135, 206, 235), 1000, 0)),
            ),
        ),
    );
    let mut lights: Vec<PointLight> = Vec::new();
    lights.push(PointLight::new(Point(4 * SCALE, 4 * SCALE, 6 * SCALE), (1000, 1000, 1000)));
    proof {
        assert forall|i: int| 0 <= i < objs@.len() implies (#[trigger] objs@[i]).wf() by {
            if i == 0 {
            } else if i == 1 {
            } else if i == 2 {
            } else if i == 3 {
            } else if i == 4 {
            } else {
            }
        };
        assert forall|i: int| 0 <= i < lights@.len() implies (#[trigger] lights@[i]).wf() by {}
    }
    Scene::new(cam, lights, objs)
}

} // verus!
