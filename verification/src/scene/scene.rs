//! The scene: a camera, lights, and a closed set of object kinds.

use vstd::prelude::*;
use crate::geometry::{NormalVector, Point, Vector};
use crate::num::DIST_MAX;
use crate::num::SCALE;
use crate::scene::camera::Camera;
use crate::scene::cylinder::Cylinder;
use crate::scene::cylinder::spec_cyl_normal;
use crate::scene::cylinder::spec_cyl_uv;
use crate::scene::light::PointLight;
use crate::scene::ray::Ray;
use crate::scene::sphere::Sphere;
use crate::scene::sphere::spec_sph_intersects;
use crate::scene::sphere::spec_sph_normal;
use crate::scene::sphere::spec_sph_uv;
use crate::scene::texture::spec_diffusion;
use crate::scene::texture::spec_specularity;
use crate::scene::triangle::Triangle;
use crate::scene::triangle::spec_tri_intersects;
use crate::scene::triangle::spec_tri_normal;

verus! {

/// A scene object: one of the closed set of primitive kinds.
pub enum Object {
    Sphere(Sphere),
    Cylinder(Cylinder),
    Triangle(Triangle),
}

/// The exact intersection result of an object.
pub open spec fn spec_obj_intersects(o: Object, ray: Ray) -> Option<i64> {
    match o {
        Object::Sphere(s) => spec_sph_intersects(s, ray),
        Object::Cylinder(c) => c.spec_cyl_intersects(ray),
        Object::Triangle(t) => spec_tri_intersects(t, ray),
    }
}

/// The exact surface direction of an object at `p` (a triangle's is
/// constant over the face).
pub open spec fn spec_obj_normal(o: Object, p: Point) -> Vector {
    match o {
        Object::Sphere(s) => spec_sph_normal(s, p),
        Object::Cylinder(c) => spec_cyl_normal(c, p),
        Object::Triangle(t) => spec_tri_normal(t),
    }
}

/// The exact diffuse factors of an object at `p`.
pub open spec fn spec_obj_diffusion(o: Object, p: Point) -> (int, int, int) {
    match o {
        Object::Sphere(s) => {
            let uv = spec_sph_uv(spec_sph_normal(s, p));
            spec_diffusion(s.spec_texture(), uv.0, uv.1)
        },
        Object::Cylinder(c) => {
            let uv = spec_cyl_uv(c, p);
            spec_diffusion(c.spec_texture(), uv.0, uv.1)
        },
        Object::Triangle(t) => spec_diffusion(t.spec_texture(), 0, 0),
    }
}

/// The exact specular coefficient of an object.
pub open spec fn spec_obj_specularity(o: Object) -> int {
    match o {
        Object::Sphere(s) => spec_specularity(s.spec_texture()),
        Object::Cylinder(c) => spec_specularity(c.spec_texture()),
        Object::Triangle(t) => spec_specularity(t.spec_texture()),
    }
}

impl Object {
    pub open spec fn wf(self) -> bool {
        match self {
            Object::Sphere(s) => s.wf(),
            Object::Cylinder(c) => c.wf(),
            Object::Triangle(t) => t.wf(),
        }
    }

    /// The nearest positive intersection distance, or `None`.
    pub fn intersects(&self, ray: Ray) -> (r: Option<i64>)
        requires
            self.wf(),
            ray.wf(),
        ensures
            r == spec_obj_intersects(*self, ray),
            r matches Some(t) ==> 0 <= t <= DIST_MAX,
    {
        match self {
            Object::Sphere(s) => s.intersects(ray),
            Object::Cylinder(c) => c.intersects(ray),
            Object::Triangle(t) => t.intersects(ray),
        }
    }

    /// The unit surface normal at `p`.
    pub fn normal(&self, p: Point) -> (r: NormalVector)
        requires
            self.wf(),
            p.in_world(),
        ensures
            r.spec_vector() == spec_obj_normal(*self, p),
            r.wf(),
    {
        match self {
            Object::Sphere(s) => s.normal(p),
            Object::Cylinder(c) => c.normal(p),
            Object::Triangle(t) => t.normal(),
        }
    }

    /// The diffuse factors at `p`.
    pub fn diffusion(&self, p: Point) -> (r: (i64, i64, i64))
        requires
            self.wf(),
            p.in_world(),
        ensures
            (r.0 as int, r.1 as int, r.2 as int) == spec_obj_diffusion(*self, p),
            0 <= r.0 <= 2_550_000,
            0 <= r.1 <= 2_550_000,
            0 <= r.2 <= 2_550_000,
    {
        match self {
            Object::Sphere(s) => s.diffusion(p),
            Object::Cylinder(c) => c.diffusion(p),
            Object::Triangle(t) => t.diffusion(),
        }
    }

    /// The specular coefficient.
    pub fn specularity(&self) -> (r: i64)
        requires
            self.wf(),
        ensures
            r as int == spec_obj_specularity(*self),
            0 <= r <= 10 * SCALE,
    {
        match self {
            Object::Sphere(s) => s.specularity(),
            Object::Cylinder(c) => c.specularity(),
            Object::Triangle(t) => t.specularity(),
        }
    }
}

/// The lights of a scene, in order.
pub type LightContainer = Vec<PointLight>;

/// The objects of a scene, in order.
pub type ObjectContainer = Vec<Object>;

/// A scene: the camera, the lights, and the objects, all read-only
/// during rendering.
pub struct Scene {
    pub cam: Camera,
    pub lights: LightContainer,
    pub objects: ObjectContainer,
}

impl Scene {
    /// Everything in the scene is well formed.
    pub open spec fn wf(self) -> bool {
        self.cam.wf() && (forall|i: int|
            0 <= i < self.lights@.len() ==> (#[trigger] self.lights@[i]).wf()) && (forall|i: int|
            0 <= i < self.objects@.len() ==> (#[trigger] self.objects@[i]).wf())
    }

    pub fn new(cam: Camera, lights: LightContainer, objects: ObjectContainer) -> (r: Scene)
        requires
            cam.wf(),
            forall|i: int| 0 <= i < lights@.len() ==> (#[trigger] lights@[i]).wf(),
            forall|i: int| 0 <= i < objects@.len() ==> (#[trigger] objects@[i]).wf(),
        ensures
            r.wf(),
            r.cam == cam,
            r.lights == lights,
            r.objects == objects,
    {
        Scene { cam, lights, objects }
    }
}

} // verus!
