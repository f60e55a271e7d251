//! Spheres: a center, a radius, and a material.

use vstd::prelude::*;
use crate::geometry::vector::spec_dot;
use crate::geometry::vector::spec_from;
use crate::geometry::vector::spec_normalize;
use crate::geometry::vector::sqrt_floor;
use crate::geometry::vector::lemma_dot_bound;
use crate::geometry::vector::lemma_sqrt_floor_unique;
use crate::geometry::{NormalVector, Point, Vector};
use crate::num::COORD_MAX;
use crate::num::DIST_MAX;
use crate::num::SCALE;
use crate::num::div_trunc;
use crate::num::div_tz;
use crate::num::isqrt;
use crate::num::lemma_abs_mul_bound;
use crate::num::lemma_div_tz_bound;
use crate::num::mul_ww;
use crate::scene::ray::Ray;
use crate::scene::ray::cap_dist;
use crate::scene::texture::Texture;
use crate::scene::texture::spec_diffusion;
use crate::scene::texture::spec_specularity;
use crate::trig::PI_MILLI;
use crate::trig::asin_milli;
use crate::trig::atan2_milli;
use crate::trig::spec_asin_milli;
use crate::trig::spec_atan2_milli;
use vstd::arithmetic::div_mod::lemma_div_is_ordered_by_denominator;
use vstd::arithmetic::div_mod::lemma_div_pos_is_pos;

verus! {

/// A sphere with a material.
pub struct Sphere {
    center: Point,
    radius: i64,
    texture: Texture,
}

/// The quadratic coefficients of the sphere/ray equation
/// `|O + t D - C|^2 == r^2`, in fixed point.
pub open spec fn spec_sph_a(s: Sphere, ray: Ray) -> int {
    ray.direction.spec_vector().norm2()
}

pub open spec fn spec_sph_b(s: Sphere, ray: Ray) -> int {
    2 * spec_dot(spec_from(s.spec_center(), ray.origin), ray.direction.spec_vector())
}

pub open spec fn spec_sph_c(s: Sphere, ray: Ray) -> int {
    spec_from(s.spec_center(), ray.origin).norm2() - s.spec_radius() * s.spec_radius()
}

/// The discriminant of that quadratic.
pub open spec fn spec_sph_disc(s: Sphere, ray: Ray) -> int {
    spec_sph_b(s, ray) * spec_sph_b(s, ray) - 4 * (spec_sph_a(s, ray) * spec_sph_c(s, ray))
}

/// The exact intersection result: no real root means no hit; both
/// roots negative means the sphere is behind the ray; a negative
/// smaller root means the origin is inside the sphere, so the larger
/// root is returned; otherwise the smaller root wins.
pub open spec fn spec_sph_intersects(s: Sphere, ray: Ray) -> Option<i64> {
    let a = spec_sph_a(s, ray);
    let b = spec_sph_b(s, ray);
    let disc = spec_sph_disc(s, ray);
    if disc < 0 {
        None
    } else {
        let sq = sqrt_floor(disc);
        let x1 = div_tz((-b + sq) * SCALE, 2 * a);
        let x2 = div_tz((-b - sq) * SCALE, 2 * a);
        let mn = if x1 < x2 { x1 } else { x2 };
        let mx = if x1 < x2 { x2 } else { x1 };
        if mn < 0 && mx < 0 {
            None
        } else if mn > 0 {
            cap_dist(mn)
        } else {
            cap_dist(mx)
        }
    }
}

/// The outward surface direction at `p`: away from the center.  If `p`
/// collapses onto the center, a fixed axis is used.
pub open spec fn spec_sph_normal(s: Sphere, p: Point) -> Vector {
    let v = spec_from(s.spec_center(), p);
    if v == (Vector { x: 0i64, y: 0i64, z: 0i64 }) {
        spec_normalize(Vector { x: 0i64, y: 0i64, z: SCALE })
    } else {
        spec_normalize(v)
    }
}

/// Spherical texture coordinates of the unit direction `n`: longitude
/// from the arctangent of `z / y`, latitude from the arcsine of `x`.
pub open spec fn spec_sph_uv(n: Vector) -> (int, int) {
    (
        500 + div_tz(spec_atan2_milli(n.z as int, n.y as int) * 1000, 2 * PI_MILLI as int),
        500 - div_tz(spec_asin_milli(n.x as int) * 1000, PI_MILLI as int),
    )
}

impl Sphere {
    pub closed spec fn spec_center(self) -> Point {
        self.center
    }

    pub closed spec fn spec_radius(self) -> int {
        self.radius as int
    }

    pub closed spec fn spec_texture(self) -> Texture {
        self.texture
    }

    /// In the scene, with a positive bounded radius and a well-formed
    /// material.
    pub open spec fn wf(self) -> bool {
        self.spec_center().wf() && 0 < self.spec_radius() <= COORD_MAX && self.spec_texture().wf()
    }

    pub fn new(center: Point, radius: i64, texture: Texture) -> (r: Sphere)
        requires
            center.wf(),
            0 < radius <= COORD_MAX,
            texture.wf(),
        ensures
            r.wf(),
            r.spec_center() == center,
            r.spec_radius() == radius,
            r.spec_texture() == texture,
    {
        Sphere { center, radius, texture }
    }

    /// The nearest positive intersection distance of `ray` with this
    /// sphere, or `None`: the exact fixed-point root selection of the
    /// quadratic, with hits beyond the far plane discarded.
    pub fn intersects(&self, ray: Ray) -> (r: Option<i64>)
        requires
            self.wf(),
            ray.wf(),
        ensures
            r == spec_sph_intersects(*self, ray),
            r matches Some(t) ==> 0 <= t <= DIST_MAX,
    {
        let v = Vector::from(self.center, ray.origin);
        let d = ray.direction.vector();
        let a = NormalVector::dot_product(&ray.direction, &ray.direction);
        proof {
            lemma_dot_bound(v, d, 7_200_000_000, 1_000);
            lemma_dot_bound(v, v, 7_200_000_000, 7_200_000_000);
            lemma_dot_bound(d, d, 1_000, 1_000);
            lemma_abs_mul_bound(self.radius as int, self.radius as int, 100_000_000, 100_000_000);
        }
        let b = 2 * Vector::dot_product(&v, &d);
        let rr = mul_ww(self.radius, self.radius);
        let c = Vector::dot_product(&v, &v) - rr;
        proof {
            lemma_abs_mul_bound(b as int, b as int, 44_000_000_000_000, 44_000_000_000_000);
            lemma_abs_mul_bound(a as int, c as int, 3_000_000, 200_000_000_000_000_000_000);
        }
        let bb = b * b;
        let ac = a * c;
        let disc = bb - 4 * ac;
        if disc < 0 {
            return None;
        }
        let sq = isqrt(disc as u128) as i128;
        proof {
            let sqi = sq as int;
            assert(sqi <= 70_000_000_000_000) by (nonlinear_arith)
                requires
                    0 <= sqi,
                    sqi * sqi <= 4_400_000_000_000_000_000_000_000_000int,
            ;
            lemma_sqrt_floor_unique(disc as int, sqi);
            lemma_root_bounds(-(b as int) + sqi, a as int);
            lemma_root_bounds(-(b as int) - sqi, a as int);
        }
        let x1 = div_trunc((-b + sq) * (SCALE as i128), 2 * a);
        let x2 = div_trunc((-b - sq) * (SCALE as i128), 2 * a);
        let mn = if x1 < x2 {
            x1
        } else {
            x2
        };
        let mx = if x1 < x2 {
            x2
        } else {
            x1
        };
        if mn < 0 && mx < 0 {
            None
        } else if mn > 0 {
            if mn <= DIST_MAX as i128 {
                Some(mn as i64)
            } else {
                None
            }
        } else {
            if mx <= DIST_MAX as i128 {
                Some(mx as i64)
            } else {
                None
            }
        }
    }

    /// The outward unit normal at `p`.
    pub fn normal(&self, p: Point) -> (r: NormalVector)
        requires
            self.wf(),
            p.in_world(),
        ensures
            r.spec_vector() == spec_sph_normal(*self, p),
            r.wf(),
    {
        let v = Vector::from(self.center, p);
        if v.x == 0 && v.y == 0 && v.z == 0 {
            Vector::new(0, 0, SCALE).normalize()
        } else {
            proof {
                assert(v.norm2() > 0) by (nonlinear_arith)
                    requires
                        v.x != 0 || v.y != 0 || v.z != 0,
                        v.norm2() == v.x as int * v.x as int + v.y as int * v.y as int + v.z as int
                            * v.z as int,
                ;
            }
            v.normalize()
        }
    }

    /// The diffuse intensity factors at `p`, via the texture map.
    pub fn diffusion(&self, p: Point) -> (r: (i64, i64, i64))
        requires
            self.wf(),
            p.in_world(),
        ensures
            ({
                let uv = spec_sph_uv(spec_sph_normal(*self, p));
                (r.0 as int, r.1 as int, r.2 as int) == spec_diffusion(
                    self.spec_texture(),
                    uv.0,
                    uv.1,
                )
            }),
            0 <= r.0 <= 255 * SCALE * 10,
            0 <= r.1 <= 255 * SCALE * 10,
            0 <= r.2 <= 255 * SCALE * 10,
    {
        let (u, v) = self.map_to_texture(p);
        self.texture.diffusion(u, v)
    }

    /// The specular coefficient; uniform over the surface.
    pub fn specularity(&self) -> (r: i64)
        requires
            self.wf(),
        ensures
            r as int == spec_specularity(self.spec_texture()),
            0 <= r <= 10 * SCALE,
    {
        self.texture.specularity()
    }

    /// Spherical texture coordinates at `p`, each in `[0, SCALE]`.
    pub fn map_to_texture(&self, p: Point) -> (r: (i64, i64))
        requires
            self.wf(),
            p.in_world(),
        ensures
            (r.0 as int, r.1 as int) == spec_sph_uv(spec_sph_normal(*self, p)),
            0 <= r.0 <= SCALE,
            0 <= r.1 <= SCALE,
    {
        let n = self.normal(p).vector();
        let az = atan2_milli(n.z, n.y);
        let el = asin_milli(n.x);
        proof {
            lemma_div_tz_bound(az as int * 1000, 2 * PI_MILLI as int, 3_142_000);
            lemma_div_tz_bound(el as int * 1000, PI_MILLI as int, 1_571_000);
        }
        let u = 500 + div_trunc(az as i128 * 1000, 2 * PI_MILLI as i128) as i64;
        let v = 500 - div_trunc(el as i128 * 1000, PI_MILLI as i128) as i64;
        (u, v)
    }
}

/// A root numerator scaled by `SCALE` and divided by `2a` stays within
/// the range that fits the engine's distances.
proof fn lemma_root_bounds(num: int, a: int)
    requires
        -120_000_000_000_000 <= num <= 120_000_000_000_000,
        250_000 <= a <= 3_000_000,
    ensures
        -(240_000_000_000int) <= div_tz(num * 1000, 2 * a) <= 240_000_000_000int,
{
    lemma_div_tz_bound(num * 1000, 2 * a, 120_000_000_000_000_000);
    lemma_div_pos_is_pos(120_000_000_000_000_000, 2 * a);
    lemma_div_is_ordered_by_denominator(120_000_000_000_000_000, 500_000, 2 * a);
}

} // verus!
