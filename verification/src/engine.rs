//! The render engine: per-pixel ray casting, nearest-hit search,
//! shadow testing, additive shading modes, and bounded mirror
//! reflection whose depth the energy budget caps.

pub mod render;

use vstd::prelude::*;
use crate::geometry::color::spec_color_add;
use crate::geometry::vector::in_range;
use crate::geometry::vector::lemma_nv_of;
use crate::geometry::vector::nv_of;
use crate::geometry::vector::spec_dot;
use crate::geometry::vector::spec_from;
use crate::geometry::vector::spec_normalize;
use crate::geometry::{Color, NormalVector, Point, Vector};
use crate::image::Image;
use crate::num::DIST_MAX;
use crate::num::SCALE;
use crate::num::div_trunc;
use crate::num::div_tz;
use crate::num::lemma_abs_mul_bound;
use crate::num::lemma_div_tz_bound;
use crate::num::mul_ww;
use crate::scene::light::PointLight;
use crate::scene::ray::Ray;
use crate::scene::ray::origin_limit;
use crate::scene::ray::spec_reflected_dir;
use crate::scene::scene::Object;
use crate::scene::scene::Scene;
use crate::scene::scene::spec_obj_diffusion;
use crate::scene::scene::spec_obj_intersects;
use crate::scene::scene::spec_obj_normal;
use crate::scene::scene::spec_obj_specularity;

verus! {

/// One shading mode; the modes that are switched on contribute
/// additively to every shaded pixel.
pub enum RenderingMode {
    Intersect,
    Diffuse,
    Specular,
    Ambient((i64, i64, i64)),
    Reflection,
}

impl RenderingMode {
    /// An ambient constant stays within ten full units per channel.
    pub open spec fn wf(self) -> bool {
        match self {
            RenderingMode::Ambient(a) => 0 <= a.0 <= 10_000 && 0 <= a.1 <= 10_000 && 0 <= a.2
                <= 10_000,
            _ => true,
        }
    }
}

/// The engine: a read-only scene and the list of active modes.
pub struct Engine {
    scene: Scene,
    mode: Vec<RenderingMode>,
}

/// The unit direction from `a` toward `b`, with a fixed fallback when
/// the two points coincide.
pub open spec fn spec_dir_to(a: Point, b: Point) -> Vector {
    let v = spec_from(a, b);
    if v == (Vector { x: 0i64, y: 0i64, z: 0i64 }) {
        spec_normalize(Vector { x: 0i64, y: 0i64, z: SCALE })
    } else {
        spec_normalize(v)
    }
}

/// The surface normal turned toward the viewer: flipped when it points
/// with the incoming ray.
pub open spec fn spec_facing_normal(o: Object, pos: Point, ray: Ray) -> Vector {
    let n = spec_obj_normal(o, pos);
    if spec_dot(n, ray.direction.spec_vector()) > 0 {
        Vector { x: (-n.x) as i64, y: (-n.y) as i64, z: (-n.z) as i64 }
    } else {
        n
    }
}

/// The point at distance `d` along the ray.
pub open spec fn spec_hit_point(ray: Ray, d: int) -> Point {
    let v = ray.direction.spec_vector();
    Point(
        (ray.origin.0 + div_tz(d * v.x, SCALE as int)) as i64,
        (ray.origin.1 + div_tz(d * v.y, SCALE as int)) as i64,
        (ray.origin.2 + div_tz(d * v.z, SCALE as int)) as i64,
    )
}

/// The reflection-ray origin: the hit point nudged a small fixed step
/// along the mirror direction, so the new ray does not immediately
/// meet the surface it left.
pub open spec fn spec_eps_point(pos: Point, refl: Vector) -> Point {
    Point(
        (pos.0 + div_tz(refl.x * 50, SCALE as int)) as i64,
        (pos.1 + div_tz(refl.y * 50, SCALE as int)) as i64,
        (pos.2 + div_tz(refl.z * 50, SCALE as int)) as i64,
    )
}

/// The shadow ray of a light toward a surface point.
pub open spec fn spec_light_ray(light: PointLight, pos: Point) -> Ray {
    Ray {
        energy: SCALE,
        origin: light.spec_pos(),
        direction: nv_of(spec_dir_to(light.spec_pos(), pos)),
    }
}

/// Whether `o` blocks the shadow ray before it covers `dself`.
pub open spec fn spec_closer(o: Object, lray: Ray, dself: int) -> bool {
    match spec_obj_intersects(o, lray) {
        Option::Some(d) => (d as int) < dself,
        Option::None => false,
    }
}

/// The shadow test: the point is shadowed from `light` when some
/// scene object meets the light's ray strictly before the distance at
/// which the owning object does.
pub open spec fn spec_in_shadow(objs: Seq<Object>, obj: Object, pos: Point, light: PointLight) -> bool {
    let lray = spec_light_ray(light, pos);
    match spec_obj_intersects(obj, lray) {
        Option::None => false,
        Option::Some(dself) => exists|i: int|
            0 <= i < objs.len() && spec_closer(#[trigger] objs[i], lray, dself as int),
    }
}

/// The nearest hit over a prefix of the scene's objects: the smallest
/// reported distance, the earliest object winning ties.
pub open spec fn spec_best_hit(objs: Seq<Object>, ray: Ray) -> Option<(int, int)>
    decreases objs.len(),
{
    if objs.len() == 0 {
        Option::None
    } else {
        let prev = spec_best_hit(objs.drop_last(), ray);
        match spec_obj_intersects(objs.last(), ray) {
            Option::None => prev,
            Option::Some(d) => match prev {
                Option::None => Option::Some((objs.len() - 1, d as int)),
                Option::Some(p) => if (d as int) < p.1 {
                    Option::Some((objs.len() - 1, d as int))
                } else {
                    prev
                },
            },
        }
    }
}

impl Engine {
    pub closed spec fn spec_scene(self) -> Scene {
        self.scene
    }

    pub closed spec fn spec_mode(self) -> Seq<RenderingMode> {
        self.mode@
    }

    /// A well-formed scene and well-formed mode parameters.
    pub open spec fn wf(self) -> bool {
        self.spec_scene().wf() && forall|i: int|
            0 <= i < self.spec_mode().len() ==> (#[trigger] self.spec_mode()[i]).wf()
    }

    pub fn new(scene: Scene) -> (r: Engine)
        requires
            scene.wf(),
        ensures
            r.wf(),
            r.spec_scene() == scene,
            r.spec_mode() == Seq::<RenderingMode>::empty(),
    {
        Engine { scene, mode: Vec::new() }
    }

    /// Clear the active modes.
    pub fn reset_mode(&mut self)
        requires
            old(self).wf(),
        ensures
            final(self).wf(),
            final(self).spec_scene() == old(self).spec_scene(),
            final(self).spec_mode() == Seq::<RenderingMode>::empty(),
    {
        self.mode = Vec::new();
    }

    /// Enable the intersect (debug) mode.
    pub fn set_intersect(&mut self)
        requires
            old(self).wf(),
        ensures
            final(self).wf(),
            final(self).spec_scene() == old(self).spec_scene(),
            final(self).spec_mode() == old(self).spec_mode().push(RenderingMode::Intersect),
    {
        let ghost pre = *self;
        self.mode.push(RenderingMode::Intersect);
        proof {
            assert forall|i: int| 0 <= i < self.spec_mode().len() implies (#[trigger] self.spec_mode()[i]).wf() by {
                if i < pre.spec_mode().len() {
                    assert(self.spec_mode()[i] == pre.spec_mode()[i]);
                } else {
                    assert(self.spec_mode()[i] == RenderingMode::Intersect);
                }
            }
        }
    }

    /// Enable diffuse shading.
    pub fn set_diffuse(&mut self)
        requires
            old(self).wf(),
        ensures
            final(self).wf(),
            final(self).spec_scene() == old(self).spec_scene(),
            final(self).spec_mode() == old(self).spec_mode().push(RenderingMode::Diffuse),
    {
        let ghost pre = *self;
        self.mode.push(RenderingMode::Diffuse);
        proof {
            assert forall|i: int| 0 <= i < self.spec_mode().len() implies (#[trigger] self.spec_mode()[i]).wf() by {
                if i < pre.spec_mode().len() {
                    assert(self.spec_mode()[i] == pre.spec_mode()[i]);
                } else {
                    assert(self.spec_mode()[i] == RenderingMode::Diffuse);
                }
            }
        }
    }

    /// Enable specular highlights.
    pub fn set_specular(&mut self)
        requires
            old(self).wf(),
        ensures
            final(self).wf(),
            final(self).spec_scene() == old(self).spec_scene(),
            final(self).spec_mode() == old(self).spec_mode().push(RenderingMode::Specular),
    {
        let ghost pre = *self;
        self.mode.push(RenderingMode::Specular);
        proof {
            assert forall|i: int| 0 <= i < self.spec_mode().len() implies (#[trigger] self.spec_mode()[i]).wf() by {
                if i < pre.spec_mode().len() {
                    assert(self.spec_mode()[i] == pre.spec_mode()[i]);
                } else {
                    assert(self.spec_mode()[i] == RenderingMode::Specular);
                }
            }
        }
    }

    /// Enable the ambient term with the given constant.
    pub fn set_ambient(&mut self, val: (i64, i64, i64))
        requires
            old(self).wf(),
            0 <= val.0 <= 10_000,
            0 <= val.1 <= 10_000,
            0 <= val.2 <= 10_000,
        ensures
            final(self).wf(),
            final(self).spec_scene() == old(self).spec_scene(),
            final(self).spec_mode() == old(self).spec_mode().push(RenderingMode::Ambient(val)),
    {
        let ghost pre = *self;
        self.mode.push(RenderingMode::Ambient(val));
        proof {
            assert forall|i: int| 0 <= i < self.spec_mode().len() implies (#[trigger] self.spec_mode()[i]).wf() by {
                if i < pre.spec_mode().len() {
                    assert(self.spec_mode()[i] == pre.spec_mode()[i]);
                } else {
                    assert(self.spec_mode()[i] == RenderingMode::Ambient(val));
                }
            }
        }
    }

    /// Move the camera to a new position, keeping its other viewing
    /// parameters; the new position must not coincide with the point
    /// the camera looks at.
    pub fn move_camera(&mut self, pos: Point)
        requires
            old(self).wf(),
            pos.wf(),
            spec_from(pos, old(self).spec_scene().cam.spec_center_of_view()).norm2() > 0,
        ensures
            final(self).wf(),
            final(self).spec_mode() == old(self).spec_mode(),
            final(self).spec_scene().lights == old(self).spec_scene().lights,
            final(self).spec_scene().objects == old(self).spec_scene().objects,
            final(self).spec_scene().cam.spec_pos() == pos,
            final(self).spec_scene().cam.spec_height() == old(
                self,
            ).spec_scene().cam.spec_height(),
            final(self).spec_scene().cam.spec_width() == old(self).spec_scene().cam.spec_width(),
    {
        self.scene.cam.move_to(pos);
        proof {
            assert forall|i: int|
                0 <= i < self.spec_scene().lights@.len() implies (
            #[trigger] self.spec_scene().lights@[i]).wf() by {
                assert(self.spec_scene().lights@[i] == old(self).spec_scene().lights@[i]);
            };
            assert forall|i: int|
                0 <= i < self.spec_scene().objects@.len() implies (
            #[trigger] self.spec_scene().objects@[i]).wf() by {
                assert(self.spec_scene().objects@[i] == old(self).spec_scene().objects@[i]);
            };
            assert forall|i: int|
                0 <= i < self.spec_mode().len() implies (#[trigger] self.spec_mode()[i]).wf() by {
                assert(self.spec_mode()[i] == old(self).spec_mode()[i]);
            };
        }
    }

    /// Enable mirror reflection.
    pub fn set_reflection(&mut self)
        requires
            old(self).wf(),
        ensures
            final(self).wf(),
            final(self).spec_scene() == old(self).spec_scene(),
            final(self).spec_mode() == old(self).spec_mode().push(RenderingMode::Reflection),
    {
        let ghost pre = *self;
        self.mode.push(RenderingMode::Reflection);
        proof {
            assert forall|i: int| 0 <= i < self.spec_mode().len() implies (#[trigger] self.spec_mode()[i]).wf() by {
                if i < pre.spec_mode().len() {
                    assert(self.spec_mode()[i] == pre.spec_mode()[i]);
                } else {
                    assert(self.spec_mode()[i] == RenderingMode::Reflection);
                }
            }
        }
    }
}

/// The contribution of one mode for one light.
pub open spec fn spec_mode_term(
    e: Engine,
    mode: RenderingMode,
    light: PointLight,
    shadow: bool,
    pos: Point,
    obj: Object,
    ray: Ray,
    nrm: NormalVector,
    refl: NormalVector,
    eps: Point,
) -> Color
    decreases ray.energy, 0int, 0int,
{
    match mode {
        RenderingMode::Intersect => render::intersection::spec_process(
            spec_obj_diffusion(obj, pos),
        ),
        RenderingMode::Diffuse => if !shadow {
            render::diffusion::spec_process(
                nv_of(spec_dir_to(pos, light.spec_pos())),
                (
                    light.spec_intensity().0 as int,
                    light.spec_intensity().1 as int,
                    light.spec_intensity().2 as int,
                ),
                spec_obj_diffusion(obj, pos),
                nrm,
            )
        } else {
            Color(0u8, 0u8, 0u8)
        },
        RenderingMode::Specular => if !shadow {
            render::specularity::spec_process(
                nv_of(spec_dir_to(pos, light.spec_pos())),
                (
                    light.spec_intensity().0 as int,
                    light.spec_intensity().1 as int,
                    light.spec_intensity().2 as int,
                ),
                spec_obj_specularity(obj),
                refl,
            )
        } else {
            Color(0u8, 0u8, 0u8)
        },
        RenderingMode::Ambient(a) => render::ambient::spec_process(
            (
                light.spec_intensity().0 as int,
                light.spec_intensity().1 as int,
                light.spec_intensity().2 as int,
            ),
            (a.0 as int, a.1 as int, a.2 as int),
            spec_obj_diffusion(obj, pos),
        ),
        RenderingMode::Reflection => if ray.energy - 700 > 0 {
            let next = Ray {
                energy: (ray.energy - 700) as i64,
                origin: eps,
                direction: refl,
            };
            match spec_cast_ray(e, next) {
                Option::Some(c) => c,
                Option::None => Color(0u8, 0u8, 0u8),
            }
        } else {
            Color(0u8, 0u8, 0u8)
        },
    }
}

/// The mode contributions of one light, folded left onto `acc`.
pub open spec fn spec_modes_acc(
    e: Engine,
    acc: Color,
    modes: Seq<RenderingMode>,
    light: PointLight,
    shadow: bool,
    pos: Point,
    obj: Object,
    ray: Ray,
    nrm: NormalVector,
    refl: NormalVector,
    eps: Point,
) -> Color
    decreases ray.energy, 1int, modes.len(),
{
    if modes.len() == 0 {
        acc
    } else {
        spec_color_add(
            spec_modes_acc(
                e,
                acc,
                modes.drop_last(),
                light,
                shadow,
                pos,
                obj,
                ray,
                nrm,
                refl,
                eps,
            ),
            spec_mode_term(e, modes.last(), light, shadow, pos, obj, ray, nrm, refl, eps),
        )
    }
}

/// The contributions of a prefix of the lights, folded left onto `acc`.
pub open spec fn spec_lights_acc(
    e: Engine,
    acc: Color,
    lights: Seq<PointLight>,
    pos: Point,
    obj: Object,
    ray: Ray,
    nrm: NormalVector,
    refl: NormalVector,
    eps: Point,
) -> Color
    decreases ray.energy, 2int, lights.len(),
{
    if lights.len() == 0 {
        acc
    } else {
        let prev = spec_lights_acc(e, acc, lights.drop_last(), pos, obj, ray, nrm, refl, eps);
        let light = lights.last();
        spec_modes_acc(
            e,
            prev,
            e.spec_mode(),
            light,
            spec_in_shadow(e.spec_scene().objects@, obj, pos, light),
            pos,
            obj,
            ray,
            nrm,
            refl,
            eps,
        )
    }
}

/// The shaded color of a hit: all mode contributions of all lights,
/// accumulated with saturating addition starting from black.
pub open spec fn spec_process_point(e: Engine, pos: Point, obj: Object, ray: Ray) -> Color
    decreases ray.energy, 3int, 0int,
{
    let nrm = spec_facing_normal(obj, pos, ray);
    let refl = spec_reflected_dir(ray.direction.spec_vector(), nrm);
    let eps = spec_eps_point(pos, refl);
    spec_lights_acc(
        e,
        Color(0u8, 0u8, 0u8),
        e.spec_scene().lights@,
        pos,
        obj,
        ray,
        nv_of(nrm),
        nv_of(refl),
        eps,
    )
}

/// The color a ray produces: the shaded nearest hit, or nothing.
pub open spec fn spec_cast_ray(e: Engine, ray: Ray) -> Option<Color>
    decreases ray.energy, 4int, 0int,
{
    match spec_best_hit(e.spec_scene().objects@, ray) {
        Option::None => Option::None,
        Option::Some(hit) => Option::Some(
            spec_process_point(
                e,
                spec_hit_point(ray, hit.1),
                e.spec_scene().objects@[hit.0],
                ray,
            ),
        ),
    }
}

/// The color of one pixel: the camera ray's result, or black.
pub open spec fn spec_render_pixel(e: Engine, x: int, y: int) -> Color {
    let origin = e.spec_scene().cam.spec_pixel_pos(x, y);
    let ray = Ray {
        energy: SCALE,
        origin,
        direction: nv_of(spec_dir_to(e.spec_scene().cam.spec_pos(), origin)),
    };
    match spec_cast_ray(e, ray) {
        Option::Some(c) => c,
        Option::None => Color(0u8, 0u8, 0u8),
    }
}

impl Engine {
    /// The unit direction from `a` toward `b`.
    fn dir_towards(a: Point, b: Point) -> (r: NormalVector)
        requires
            a.in_world(),
            b.in_world(),
        ensures
            r == nv_of(spec_dir_to(a, b)),
            r.spec_vector() == spec_dir_to(a, b),
            r.wf(),
    {
        let v = Vector::from(a, b);
        if v.x == 0 && v.y == 0 && v.z == 0 {
            Vector::new(0, 0, SCALE).normalize()
        } else {
            proof {
                assert(v.norm2() > 0) by (nonlinear_arith)
                    requires
                        v.x != 0 || v.y != 0 || v.z != 0,
                        v.norm2() == v.x as int * v.x as int + v.y as int * v.y as int + v.z as int
                            * v.z as int,
                ;
            }
            v.normalize()
        }
    }

    /// Whether `pos` on `obj` is shadowed from `light` by some other
    /// intersection closer to the light.
    fn in_shadow(&self, obj: &Object, pos: Point, light: &PointLight) -> (r: bool)
        requires
            self.wf(),
            obj.wf(),
            pos.in_world(),
            light.wf(),
        ensures
            r == spec_in_shadow(self.spec_scene().objects@, *obj, pos, *light),
    {
        let direction = Engine::dir_towards(light.pos(), pos);
        let light_ray = Ray { energy: SCALE, origin: light.pos(), direction };
        proof {
            assert(light_ray == spec_light_ray(*light, pos));
        }
        let hit_self = obj.intersects(light_ray);
        match hit_self {
            None => false,
            Some(dself) => {
                let n = self.scene.objects.len();
                let mut i: usize = 0;
                while i < n
                    invariant
                        self.wf(),
                        obj.wf(),
                        light_ray.wf(),
                        light_ray == spec_light_ray(*light, pos),
                        spec_obj_intersects(*obj, light_ray) == Option::<i64>::Some(dself),
                        n == self.spec_scene().objects@.len(),
                        i <= n,
                        0 <= dself <= DIST_MAX,
                        forall|j: int|
                            0 <= j < i ==> !spec_closer(
                                #[trigger] self.spec_scene().objects@[j],
                                light_ray,
                                dself as int,
                            ),
                    decreases n - i,
                {
                    let other = &self.scene.objects[i];
                    if let Some(d) = other.intersects(light_ray) {
                        if d < dself {
                            proof {
                                assert(spec_closer(
                                    self.spec_scene().objects@[i as int],
                                    light_ray,
                                    dself as int,
                                ));
                            }
                            return true;
                        }
                    }
                    i = i + 1;
                }
                false
            },
        }
    }

    /// Shade the hit at `pos` on `obj`: accumulate every active mode
    /// for every light, with the shadow test suppressing the diffuse
    /// and specular terms.
    #[verifier::rlimit(100)]
    fn process_point(&self, pos: Point, obj: &Object, ray: &Ray) -> (c: Color)
        requires
            self.wf(),
            obj.wf(),
            ray.wf(),
            in_range(pos.0 as int, origin_limit(ray.energy as int) + 2_000_000_000),
            in_range(pos.1 as int, origin_limit(ray.energy as int) + 2_000_000_000),
            in_range(pos.2 as int, origin_limit(ray.energy as int) + 2_000_000_000),
        ensures
            c == spec_process_point(*self, pos, *obj, *ray),
        decreases ray.energy, 3int, 0int,
    {
        let normal0 = obj.normal(pos);
        let dflip = NormalVector::dot_product(&normal0, &ray.direction);
        let normal = if dflip > 0 {
            normal0.neg()
        } else {
            normal0
        };
        proof {
            assert(normal.spec_vector() == spec_facing_normal(*obj, pos, *ray));
            lemma_nv_of(spec_facing_normal(*obj, pos, *ray));
            crate::geometry::vector::lemma_nv_eq(
                normal,
                nv_of(spec_facing_normal(*obj, pos, *ray)),
            );
        }
        let reflected = ray.reflected(&normal);
        proof {
            let rv = reflected.spec_vector();
            lemma_abs_mul_bound(rv.x as int, 50, 1000, 50);
            lemma_abs_mul_bound(rv.y as int, 50, 1000, 50);
            lemma_abs_mul_bound(rv.z as int, 50, 1000, 50);
            lemma_div_tz_bound(rv.x as int * 50, SCALE as int, 50_000);
            lemma_div_tz_bound(rv.y as int * 50, SCALE as int, 50_000);
            lemma_div_tz_bound(rv.z as int * 50, SCALE as int, 50_000);
        }
        let rv = reflected.vector();
        let epsilon_pos = Point(
            pos.0 + div_trunc(mul_ww(rv.x, 50), SCALE as i128) as i64,
            pos.1 + div_trunc(mul_ww(rv.y, 50), SCALE as i128) as i64,
            pos.2 + div_trunc(mul_ww(rv.z, 50), SCALE as i128) as i64,
        );
        proof {
            assert(epsilon_pos == spec_eps_point(pos, reflected.spec_vector()));
        }
        let mut c = Color(0, 0, 0);
        let nlights = self.scene.lights.len();
        let mut li: usize = 0;
        while li < nlights
            invariant
                self.wf(),
                obj.wf(),
                ray.wf(),
                in_range(pos.0 as int, origin_limit(ray.energy as int) + 2_000_000_000),
                in_range(pos.1 as int, origin_limit(ray.energy as int) + 2_000_000_000),
                in_range(pos.2 as int, origin_limit(ray.energy as int) + 2_000_000_000),
                nlights == self.spec_scene().lights@.len(),
                li <= nlights,
                normal == nv_of(spec_facing_normal(*obj, pos, *ray)),
                normal.wf(),
                reflected == nv_of(
                    spec_reflected_dir(
                        ray.direction.spec_vector(),
                        spec_facing_normal(*obj, pos, *ray),
                    ),
                ),
                reflected.wf(),
                epsilon_pos == spec_eps_point(
                    pos,
                    spec_reflected_dir(
                        ray.direction.spec_vector(),
                        spec_facing_normal(*obj, pos, *ray),
                    ),
                ),
                c == spec_lights_acc(
                    *self,
                    Color(0u8, 0u8, 0u8),
                    self.spec_scene().lights@.take(li as int),
                    pos,
                    *obj,
                    *ray,
                    normal,
                    reflected,
                    epsilon_pos,
                ),
            decreases ray.energy, 2int, nlights - li,
        {
            let light = &self.scene.lights[li];
            let shadowed = self.in_shadow(obj, pos, light);
            let nmodes = self.mode.len();
            let mut mi: usize = 0;
            while mi < nmodes
                invariant
                    self.wf(),
                    obj.wf(),
                    ray.wf(),
                    in_range(pos.0 as int, origin_limit(ray.energy as int) + 2_000_000_000),
                    in_range(pos.1 as int, origin_limit(ray.energy as int) + 2_000_000_000),
                    in_range(pos.2 as int, origin_limit(ray.energy as int) + 2_000_000_000),
                    nlights == self.spec_scene().lights@.len(),
                    li < nlights,
                    light == &self.spec_scene().lights@[li as int],
                    shadowed == spec_in_shadow(
                        self.spec_scene().objects@,
                        *obj,
                        pos,
                        self.spec_scene().lights@[li as int],
                    ),
                    nmodes == self.spec_mode().len(),
                    mi <= nmodes,
                    normal == nv_of(spec_facing_normal(*obj, pos, *ray)),
                    normal.wf(),
                    reflected == nv_of(
                        spec_reflected_dir(
                            ray.direction.spec_vector(),
                            spec_facing_normal(*obj, pos, *ray),
                        ),
                    ),
                    reflected.wf(),
                    epsilon_pos == spec_eps_point(
                        pos,
                        spec_reflected_dir(
                            ray.direction.spec_vector(),
                            spec_facing_normal(*obj, pos, *ray),
                        ),
                    ),
                    c == spec_modes_acc(
                        *self,
                        spec_lights_acc(
                            *self,
                            Color(0u8, 0u8, 0u8),
                            self.spec_scene().lights@.take(li as int),
                            pos,
                            *obj,
                            *ray,
                            normal,
                            reflected,
                            epsilon_pos,
                        ),
                        self.spec_mode().take(mi as int),
                        self.spec_scene().lights@[li as int],
                        shadowed,
                        pos,
                        *obj,
                        *ray,
                        normal,
                        reflected,
                        epsilon_pos,
                    ),
                decreases ray.energy, 1int, nmodes - mi,
            {
                let term: Color = match &self.mode[mi] {
                    RenderingMode::Intersect => render::intersection::process(obj.diffusion(pos)),
                    RenderingMode::Diffuse => {
                        if !shadowed {
                            render::diffusion::process(
                                Engine::dir_towards(pos, light.pos()),
                                light.intensity(),
                                obj.diffusion(pos),
                                normal,
                            )
                        } else {
                            Color(0, 0, 0)
                        }
                    },
                    RenderingMode::Specular => {
                        if !shadowed {
                            render::specularity::process(
                                Engine::dir_towards(pos, light.pos()),
                                light.intensity(),
                                obj.specularity(),
                                reflected,
                            )
                        } else {
                            Color(0, 0, 0)
                        }
                    },
                    RenderingMode::Ambient(ambient_light) => render::ambient::process(
                        light.intensity(),
                        *ambient_light,
                        obj.diffusion(pos),
                    ),
                    RenderingMode::Reflection => {
                        let energy = ray.energy - 700;
                        if energy > 0 {
                            proof {
                                let rv = spec_reflected_dir(
                                    ray.direction.spec_vector(),
                                    spec_facing_normal(*obj, pos, *ray),
                                );
                                lemma_nv_of(rv);
                                lemma_abs_mul_bound(rv.x as int, 50, 1000, 50);
                                lemma_abs_mul_bound(rv.y as int, 50, 1000, 50);
                                lemma_abs_mul_bound(rv.z as int, 50, 1000, 50);
                                lemma_div_tz_bound(rv.x as int * 50, SCALE as int, 50_000);
                                lemma_div_tz_bound(rv.y as int * 50, SCALE as int, 50_000);
                                lemma_div_tz_bound(rv.z as int * 50, SCALE as int, 50_000);
                            }
                            let reflection_ray = Ray {
                                energy,
                                origin: epsilon_pos,
                                direction: reflected,
                            };
                            if let Some(color) = self.cast_ray(reflection_ray) {
                                color
                            } else {
                                Color(0, 0, 0)
                            }
                        } else {
                            Color(0, 0, 0)
                        }
                    },
                };
                proof {
                    assert(self.spec_mode().take(mi + 1).drop_last() =~= self.spec_mode().take(
                        mi as int,
                    ));
                    assert(self.spec_mode().take(mi + 1).last() == self.spec_mode()[mi as int]);
                    assert(term == spec_mode_term(
                        *self,
                        self.spec_mode()[mi as int],
                        self.spec_scene().lights@[li as int],
                        shadowed,
                        pos,
                        *obj,
                        *ray,
                        normal,
                        reflected,
                        epsilon_pos,
                    ));
                }
                c = c.add(term);
                mi = mi + 1;
            }
            proof {
                assert(self.spec_mode().take(nmodes as int) =~= self.spec_mode());
                assert(self.spec_scene().lights@.take(li + 1).drop_last()
                    =~= self.spec_scene().lights@.take(li as int));
                assert(self.spec_scene().lights@.take(li + 1).last()
                    == self.spec_scene().lights@[li as int]);
            }
            li = li + 1;
        }
        proof {
            assert(self.spec_scene().lights@.take(nlights as int) =~= self.spec_scene().lights@);
        }
        c
    }

    /// Cast a ray into the scene: find the nearest hit over all
    /// objects (the earliest object wins an exact tie) and shade it;
    /// report nothing when no object is met.
    pub fn cast_ray(&self, ray: Ray) -> (r: Option<Color>)
        requires
            self.wf(),
            ray.wf(),
        ensures
            r == spec_cast_ray(*self, ray),
        decreases ray.energy, 4int, 0int,
    {
        let n = self.scene.objects.len();
        let mut best: Option<(usize, i64)> = None;
        let mut i: usize = 0;
        while i < n
            invariant
                self.wf(),
                ray.wf(),
                n == self.spec_scene().objects@.len(),
                i <= n,
                match best {
                    Option::None => spec_best_hit(
                        self.spec_scene().objects@.take(i as int),
                        ray,
                    ) matches Option::None,
                    Option::Some(b) => spec_best_hit(self.spec_scene().objects@.take(i as int), ray)
                        == Option::Some((b.0 as int, b.1 as int)) && b.0 < i && 0 <= b.1
                        <= DIST_MAX,
                },
            decreases n - i,
        {
            let cur = self.scene.objects[i].intersects(ray);
            proof {
                assert(self.spec_scene().objects@.take(i + 1).drop_last()
                    =~= self.spec_scene().objects@.take(i as int));
                assert(self.spec_scene().objects@.take(i + 1).last()
                    == self.spec_scene().objects@[i as int]);
            }
            match cur {
                Some(d) => {
                    match best {
                        None => {
                            best = Some((i, d));
                        },
                        Some(b) => {
                            if d < b.1 {
                                best = Some((i, d));
                            }
                        },
                    }
                },
                None => {},
            }
            i = i + 1;
        }
        proof {
            assert(self.spec_scene().objects@.take(n as int) =~= self.spec_scene().objects@);
        }
        match best {
            None => None,
            Some(b) => {
                let d = b.1;
                let v = ray.direction.vector();
                proof {
                    lemma_abs_mul_bound(d as int, v.x as int, 2_000_000_000, 1000);
                    lemma_abs_mul_bound(d as int, v.y as int, 2_000_000_000, 1000);
                    lemma_abs_mul_bound(d as int, v.z as int, 2_000_000_000, 1000);
                    lemma_div_tz_bound(d as int * v.x as int, SCALE as int, 2_000_000_000_000);
                    lemma_div_tz_bound(d as int * v.y as int, SCALE as int, 2_000_000_000_000);
                    lemma_div_tz_bound(d as int * v.z as int, SCALE as int, 2_000_000_000_000);
                }
                let hit = Point(
                    ray.origin.0 + div_trunc(mul_ww(d, v.x), SCALE as i128) as i64,
                    ray.origin.1 + div_trunc(mul_ww(d, v.y), SCALE as i128) as i64,
                    ray.origin.2 + div_trunc(mul_ww(d, v.z), SCALE as i128) as i64,
                );
                proof {
                    assert(hit == spec_hit_point(ray, d as int));
                }
                let obj = &self.scene.objects[b.0];
                Some(self.process_point(hit, obj, &ray))
            },
        }
    }

    /// Render the whole pixel grid: one primary ray per pixel, hits
    /// shaded into the raster, misses left at the background black.
    pub fn render(&self) -> (res: Image)
        requires
            self.wf(),
        ensures
            res.wf(),
            res.spec_height() == self.spec_scene().cam.spec_height(),
            res.spec_width() == self.spec_scene().cam.spec_width(),
            forall|x: int, y: int|
                0 <= x < res.spec_height() && 0 <= y < res.spec_width() ==> res.spec_pixel(x, y)
                    == spec_render_pixel(*self, x, y),
    {
        let height = self.scene.cam.height();
        let width = self.scene.cam.width();
        proof {
            lemma_grid_bound(height as int, width as int);
        }
        let mut res = Image::new(height, width);
        let mut x: usize = 0;
        while x < height
            invariant
                self.wf(),
                height as int == self.spec_scene().cam.spec_height(),
                width as int == self.spec_scene().cam.spec_width(),
                x <= height,
                res.wf(),
                res.spec_height() == height,
                res.spec_width() == width,
                forall|i: int, j: int|
                    0 <= i < x && 0 <= j < width ==> res.spec_pixel(i, j) == spec_render_pixel(
                        *self,
                        i,
                        j,
                    ),
            decreases height - x,
        {
            let mut y: usize = 0;
            while y < width
                invariant
                    self.wf(),
                    height as int == self.spec_scene().cam.spec_height(),
                    width as int == self.spec_scene().cam.spec_width(),
                    x < height,
                    y <= width,
                    res.wf(),
                    res.spec_height() == height,
                    res.spec_width() == width,
                    forall|i: int, j: int|
                        0 <= i < x && 0 <= j < width ==> res.spec_pixel(i, j) == spec_render_pixel(
                            *self,
                            i,
                            j,
                        ),
                    forall|j: int|
                        0 <= j < y ==> res.spec_pixel(x as int, j) == spec_render_pixel(
                            *self,
                            x as int,
                            j,
                        ),
                decreases width - y,
            {
                let origin = self.scene.cam.get_pixel_pos(x, y);
                let direction = Engine::dir_towards(self.scene.cam.pos(), origin);
                let ray = Ray { energy: SCALE, origin, direction };
                let c = match self.cast_ray(ray) {
                    Some(c) => c,
                    None => Color(0, 0, 0),
                };
                proof {
                    assert(c == spec_render_pixel(*self, x as int, y as int));
                }
                let ghost old_res = res;
                res.set(x, y, c);
                proof {
                    let w = width as int;
                    let h = height as int;
                    crate::image::lemma_rowmajor_bound(x as int, y as int, h, w);
                    assert forall|i: int, j: int|
                        0 <= i < x && 0 <= j < w implies res.spec_pixel(i, j) == spec_render_pixel(
                        *self,
                        i,
                        j,
                    ) by {
                        lemma_rowmajor_distinct(i, j, x as int, y as int, w);
                        crate::image::lemma_rowmajor_bound(i, j, h, w);
                        assert(old_res.spec_pixel(i, j) == spec_render_pixel(*self, i, j));
                    };
                    assert forall|j: int| 0 <= j < y + 1 implies res.spec_pixel(x as int, j)
                        == spec_render_pixel(*self, x as int, j) by {
                        if j < y {
                            lemma_rowmajor_distinct(x as int, j, x as int, y as int, w);
                            crate::image::lemma_rowmajor_bound(x as int, j, h, w);
                            assert(old_res.spec_pixel(x as int, j) == spec_render_pixel(
                                *self,
                                x as int,
                                j,
                            ));
                        }
                    };
                }
                y = y + 1;
            }
            x = x + 1;
        }
        res
    }
}

/// The shadow law: for a shadowed light, the diffuse and the specular
/// terms contribute nothing, whatever the geometry.
pub proof fn lemma_shadow_suppresses(
    e: Engine,
    light: PointLight,
    pos: Point,
    obj: Object,
    ray: Ray,
    nrm: NormalVector,
    refl: NormalVector,
    eps: Point,
)
    ensures
        spec_mode_term(e, RenderingMode::Diffuse, light, true, pos, obj, ray, nrm, refl, eps)
            == Color(0u8, 0u8, 0u8),
        spec_mode_term(e, RenderingMode::Specular, light, true, pos, obj, ray, nrm, refl, eps)
            == Color(0u8, 0u8, 0u8),
{
}

/// With only the intersect mode enabled, one more light adds exactly
/// the intersect term of the hit object.
#[verifier::rlimit(100)]
proof fn lemma_lights_acc_step_intersect(
    e: Engine,
    acc: Color,
    l: Seq<PointLight>,
    pos: Point,
    obj: Object,
    ray: Ray,
    nrm: NormalVector,
    refl: NormalVector,
    eps: Point,
)
    requires
        e.spec_mode() =~= seq![RenderingMode::Intersect],
        l.len() > 0,
    ensures
        spec_lights_acc(e, acc, l, pos, obj, ray, nrm, refl, eps) == spec_color_add(
            spec_lights_acc(e, acc, l.drop_last(), pos, obj, ray, nrm, refl, eps),
            render::intersection::spec_process(spec_obj_diffusion(obj, pos)),
        ),
{
    reveal_with_fuel(spec_lights_acc, 2);
    reveal_with_fuel(spec_modes_acc, 3);
    reveal_with_fuel(spec_mode_term, 2);
    let prev = spec_lights_acc(e, acc, l.drop_last(), pos, obj, ray, nrm, refl, eps);
    let light = l.last();
    let sh = spec_in_shadow(e.spec_scene().objects@, obj, pos, light);
    assert(e.spec_mode().drop_last() =~= Seq::<RenderingMode>::empty());
    assert(e.spec_mode().last() == RenderingMode::Intersect);
    assert(spec_modes_acc(e, prev, e.spec_mode().drop_last(), light, sh, pos, obj, ray, nrm, refl, eps)
        == prev);
    assert(spec_mode_term(e, RenderingMode::Intersect, light, sh, pos, obj, ray, nrm, refl, eps)
        == render::intersection::spec_process(spec_obj_diffusion(obj, pos)));
}

/// With only the intersect mode enabled, the accumulated color of a
/// light prefix does not depend on the lights themselves, only on how
/// many there are.
proof fn lemma_intersect_lights_acc(
    e1: Engine,
    e2: Engine,
    acc: Color,
    l1: Seq<PointLight>,
    l2: Seq<PointLight>,
    pos: Point,
    obj: Object,
    ray: Ray,
    nrm: NormalVector,
    refl: NormalVector,
    eps: Point,
)
    requires
        e1.spec_mode() =~= seq![RenderingMode::Intersect],
        e2.spec_mode() =~= seq![RenderingMode::Intersect],
        l1.len() == l2.len(),
    ensures
        spec_lights_acc(e1, acc, l1, pos, obj, ray, nrm, refl, eps) == spec_lights_acc(
            e2,
            acc,
            l2,
            pos,
            obj,
            ray,
            nrm,
            refl,
            eps,
        ),
    decreases l1.len(),
{
    if l1.len() > 0 {
        lemma_intersect_lights_acc(
            e1,
            e2,
            acc,
            l1.drop_last(),
            l2.drop_last(),
            pos,
            obj,
            ray,
            nrm,
            refl,
            eps,
        );
        lemma_lights_acc_step_intersect(e1, acc, l1, pos, obj, ray, nrm, refl, eps);
        lemma_lights_acc_step_intersect(e2, acc, l2, pos, obj, ray, nrm, refl, eps);
    }
}

/// The intersect law: with only the intersect mode enabled, the color
/// a ray produces depends on the scene's objects and the number of
/// its lights alone; the lights' positions and intensities do not
/// matter, in any scene.
pub proof fn lemma_intersect_mode_ignores_lights(e1: Engine, e2: Engine, ray: Ray)
    requires
        e1.spec_mode() =~= seq![RenderingMode::Intersect],
        e2.spec_mode() =~= seq![RenderingMode::Intersect],
        e1.spec_scene().objects == e2.spec_scene().objects,
        e1.spec_scene().lights@.len() == e2.spec_scene().lights@.len(),
    ensures
        spec_cast_ray(e1, ray) == spec_cast_ray(e2, ray),
{
    match spec_best_hit(e1.spec_scene().objects@, ray) {
        Option::None => {},
        Option::Some(hit) => {
            let pos = spec_hit_point(ray, hit.1);
            let obj = e1.spec_scene().objects@[hit.0];
            let nrm = spec_facing_normal(obj, pos, ray);
            let refl = spec_reflected_dir(ray.direction.spec_vector(), nrm);
            lemma_intersect_lights_acc(
                e1,
                e2,
                Color(0u8, 0u8, 0u8),
                e1.spec_scene().lights@,
                e2.spec_scene().lights@,
                pos,
                obj,
                ray,
                nv_of(nrm),
                nv_of(refl),
                spec_eps_point(pos, refl),
            );
        },
    }
}

/// How many mirror bounces a ray with the given energy can still
/// spawn: one per bounce until the budget is spent.
pub open spec fn spec_bounces(energy: int) -> nat
    decreases energy,
{
    if energy - 700 > 0 {
        (1 + spec_bounces(energy - 700)) as nat
    } else {
        0
    }
}

/// The energy budget bounds the reflection recursion: a ray that
/// starts within the full budget spawns at most one mirror bounce, so
/// the recursion depth never exceeds two rays and always terminates.
pub proof fn lemma_reflection_depth(energy: int)
    requires
        0 <= energy <= 1000,
    ensures
        spec_bounces(energy) <= 1,
{
    if energy - 700 > 0 {
        assert(energy - 700 <= 300);
        assert(spec_bounces(energy - 700) == 0);
    }
}

/// A bounded camera grid fits the raster size cap.
proof fn lemma_grid_bound(h: int, w: int)
    by (nonlinear_arith)
    requires
        1 <= h <= 10_000,
        1 <= w <= 10_000,
    ensures
        h * w <= 100_000_000,
{
}

/// Distinct pixel coordinates have distinct row-major indices.
proof fn lemma_rowmajor_distinct(i: int, j: int, x: int, y: int, w: int)
    by (nonlinear_arith)
    requires
        0 <= j < w,
        0 <= y < w,
        i != x || j != y,
    ensures
        i * w + j != x * w + y,
{
}

} // verus!
