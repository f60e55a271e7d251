//! A narrow-angle variant of the sphere scene: the same five spheres
//! pushed farther back, lit from the lower left.

use vstd::prelude::*;
use crate::geometry::{Color, Point, Vector};
use crate::num::SCALE;
use crate::scene::Camera;
use crate::scene::Object;
use crate::scene::Scene;
use crate::scene::Sphere;
use crate::scene::light::PointLight;
use crate::scene::texture::Texture;
use crate::scene::texture::UniformTexture;

verus! {

/// Build the scene at the given resolution.
#[verifier::rlimit(100)]
pub fn get(res_x: usize, res_y: usize) -> (r: Scene)
    requires
        1 <= res_x <= 10_000,
        1 <= res_y <= 10_000,
    ensures
        r.wf(),
        r.cam.spec_height() == res_x,
        r.cam.spec_width() == res_y,
        r.lights@.len() == 1,
        r.objects@.len() == 5,
        forall|i: int| 0 <= i < 5 ==> (#[trigger] r.objects@[i]) matches Object::Sphere(s),
{
    proof {
        crate::geometry::vector::lemma_norm2_pos(
            crate::geometry::vector::spec_from(Point(0, 0, 0), Point(0, 0, (8 * SCALE) as i64)),
        );
    }
    let cam = Camera::new(
        Point(0, 0, 0),
        Point(0, 0, 8 * SCALE),
        Vector::new(SCALE, 0, 0).normalize(),
        45_000,
        45_000,
        2 * SCALE,
        res_x,
        res_y,
    );
    let mut objs: Vec<Object> = Vec::new();
    objs.push(
        Object::Sphere(
            Sphere::new(
                Point(0, 0, 16 * SCALE),
                SCALE,
                Texture::Uniform(UniformTexture::new(Color(255, 0, 0), 1000, 1000)),
            ),
        ),
    );
    objs.push(
        Object::Sphere(
            Sphere::new(
                Point(3 * SCALE, -SCALE, 16 * SCALE),
                600,
                Texture::Uniform(UniformTexture::new(Color(255, 0, 0), 500, 500)),
            ),
        ),
    );
    objs.push(
        Object::Sphere(
            Sphere::new(
                Point(0, 0, 19 * SCALE),
                4 * SCALE,
                Texture::Uniform(UniformTexture::new(Color(0, 255, 0), 1000, 1000)),
            ),
        ),
    );
    objs.push(
        Object::Sphere(
            Sphere::new(
                Point(SCALE, SCALE, 16_300),
                700,
                Texture::Uniform(UniformTexture::new(Color(0, 0, 255), 1000, 1300)),
            ),
        ),
    );
    objs.push(
        Object::Sphere(
            Sphere::new(
                Point(-3_300, -3_300, 16 * SCALE),
                SCALE,
                Texture::Uniform(UniformTexture::new(Color(255, 255, 255), 1000, 1000)),
            ),
        ),
    );
    let mut lights: Vec<PointLight> = Vec::new();
    lights.push(PointLight::new(Point(-5 * SCALE, -5 * SCALE, 11 * SCALE), (1000, 1000, 1000)));
    proof {
        assert forall|i: int| 0 <= i < objs@.len() implies (#[trigger] objs@[i]).wf() by {
            if i == 0 {
            } else if i == 1 {
            } else if i == 2 {
            } else if i == 3 {
            } else {
            }
        };
        assert forall|i: int| 0 <= i < lights@.len() implies (#[trigger] lights@[i]).wf() by {}
    }
    Scene::new(cam, lights, objs)
}

} // verus!
