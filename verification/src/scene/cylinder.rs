//! Finite capped cylinders: two endpoints, a radius, and a material.

use vstd::prelude::*;
use crate::geometry::vector::lemma_dot_bound;
use crate::geometry::vector::spec_dot;
use crate::geometry::vector::spec_from;
use crate::geometry::vector::spec_normalize;
use crate::geometry::vector::lemma_sqrt_floor_unique;
use crate::geometry::vector::sqrt_floor;
use crate::geometry::{NormalVector, Point, Vector};
use crate::num::COORD_MAX;
use crate::num::DIST_MAX;
use crate::num::SCALE;
use crate::num::div_trunc;
use crate::num::div_tz;
use crate::num::isqrt;
use crate::num::lemma_abs_mul_bound;
use crate::num::lemma_div_tz_bound;
use crate::num::mul_ii;
use crate::num::mul_ww;
use crate::scene::ray::Ray;
use crate::scene::texture::Texture;
use crate::scene::texture::spec_diffusion;
use crate::scene::texture::spec_specularity;
use vstd::arithmetic::div_mod::lemma_div_is_ordered_by_denominator;
use vstd::arithmetic::div_mod::lemma_div_pos_is_pos;

verus! {

/// A cylinder segment from `a` to `b` with a lateral radius and caps.
pub struct Cylinder {
    a: Point,
    b: Point,
    r: i64,
    texture: Texture,
    direction: NormalVector,
}

/// The smaller of two optional candidates; a missing side loses.
pub open spec fn min_opt(x: Option<int>, y: Option<int>) -> Option<int> {
    match x {
        Option::None => y,
        Option::Some(xv) => match y {
            Option::None => x,
            Option::Some(yv) => if xv < yv {
                Option::Some(xv)
            } else {
                Option::Some(yv)
            },
        },
    }
}

/// The point parameter `x` along the ray, as exact integer coordinates
/// (they may leave the world for far parameters).
pub open spec fn cyl_point_at(ray: Ray, x: int) -> (int, int, int) {
    let v = ray.direction.spec_vector();
    (
        ray.origin.0 + div_tz(x * v.x, SCALE as int),
        ray.origin.1 + div_tz(x * v.y, SCALE as int),
        ray.origin.2 + div_tz(x * v.z, SCALE as int),
    )
}

impl Cylinder {
    pub closed spec fn spec_a(self) -> Point {
        self.a
    }

    pub closed spec fn spec_b(self) -> Point {
        self.b
    }

    pub closed spec fn spec_r(self) -> int {
        self.r as int
    }

    pub closed spec fn spec_texture(self) -> Texture {
        self.texture
    }

    pub closed spec fn spec_direction(self) -> NormalVector {
        self.direction
    }

    /// Endpoints in the scene, a positive bounded radius, a well-formed
    /// material, and the unit axis direction derived from the endpoints.
    pub open spec fn wf(self) -> bool {
        self.spec_a().wf() && self.spec_b().wf() && 0 < self.spec_r() <= COORD_MAX
            && self.spec_texture().wf() && self.spec_direction().wf() && spec_from(
            self.spec_a(),
            self.spec_b(),
        ).norm2() > 0 && self.spec_direction().spec_vector() == spec_normalize(
            spec_from(self.spec_a(), self.spec_b()),
        )
    }

    /// The direction component of the ray/axis decomposition.
    pub open spec fn spec_sub_a(self, ray: Ray) -> Vector {
        let v = ray.direction.spec_vector();
        let w = self.spec_direction().spec_vector();
        let dvw = spec_dot(v, w);
        Vector {
            x: (v.x - div_tz(w.x * dvw, 1_000_000)) as i64,
            y: (v.y - div_tz(w.y * dvw, 1_000_000)) as i64,
            z: (v.z - div_tz(w.z * dvw, 1_000_000)) as i64,
        }
    }

    /// The offset component of the ray/axis decomposition.
    pub open spec fn spec_sub_c(self, ray: Ray) -> Vector {
        let d = spec_from(self.spec_a(), ray.origin);
        let w = self.spec_direction().spec_vector();
        let ddw = spec_dot(d, w);
        Vector {
            x: (d.x - div_tz(w.x * ddw, 1_000_000)) as i64,
            y: (d.y - div_tz(w.y * ddw, 1_000_000)) as i64,
            z: (d.z - div_tz(w.z * ddw, 1_000_000)) as i64,
        }
    }

    /// Whether the lateral hit at parameter `x` lies between the two
    /// cap planes: the axis dot products toward the two endpoints have
    /// strictly opposite signs.
    pub open spec fn spec_between(self, ray: Ray, x: int) -> bool {
        let w = self.spec_direction().spec_vector();
        let p = cyl_point_at(ray, x);
        let d1 = w.x * (self.spec_a().0 - p.0) + w.y * (self.spec_a().1 - p.1) + w.z * (
        self.spec_a().2 - p.2);
        let d2 = w.x * (self.spec_b().0 - p.0) + w.y * (self.spec_b().1 - p.1) + w.z * (
        self.spec_b().2 - p.2);
        (d1 < 0 && d2 > 0) || (d1 > 0 && d2 < 0)
    }

    /// The ray parameter at which the cap plane through `p` is met.
    pub open spec fn spec_cap_t(self, ray: Ray, p: Point) -> int {
        let w = self.spec_direction().spec_vector();
        let dvw = spec_dot(ray.direction.spec_vector(), w);
        div_tz(spec_dot(spec_from(ray.origin, p), w) * 1000, dvw)
    }

    /// Whether the point at parameter `t` lies within the cap radius
    /// around the endpoint `p`.
    pub open spec fn spec_cap_within(self, ray: Ray, p: Point, t: int) -> bool {
        let q = cyl_point_at(ray, t);
        let dx = q.0 - p.0;
        let dy = q.1 - p.1;
        let dz = q.2 - p.2;
        dx * dx + dy * dy + dz * dz <= self.spec_r() * self.spec_r()
    }

    /// The candidate distance from the cap through `p`, if the caps
    /// face the ray, the plane is ahead, and the hit is within radius.
    pub open spec fn spec_cap_candidate(self, ray: Ray, p: Point) -> Option<int> {
        let dvw = spec_dot(ray.direction.spec_vector(), self.spec_direction().spec_vector());
        if dvw > 0 {
            let t = self.spec_cap_t(ray, p);
            if t >= 0 && self.spec_cap_within(ray, p, t) {
                Option::Some(t)
            } else {
                Option::None
            }
        } else {
            Option::None
        }
    }

    /// A lateral root, kept when it is positive and between the caps.
    pub open spec fn spec_lat_candidate(self, ray: Ray, x: int) -> Option<int> {
        if x > 0 && self.spec_between(ray, x) {
            Option::Some(x)
        } else {
            Option::None
        }
    }

    /// The exact intersection result.  The quadratic in the plane
    /// perpendicular to the axis gives the lateral roots; the two cap
    /// disks add their own candidates; the minimum wins, and hits
    /// beyond the far plane are discarded.  A ray running along the
    /// axis (zero leading coefficient) can only meet the caps, and
    /// only from inside the radius.
    pub open spec fn spec_cyl_intersects(self, ray: Ray) -> Option<i64> {
        let sa = self.spec_sub_a(ray);
        let sc = self.spec_sub_c(ray);
        let qa = spec_dot(sa, sa);
        let qb = 2 * spec_dot(sa, sc);
        let qc = spec_dot(sc, sc) - self.spec_r() * self.spec_r();
        let caps = min_opt(
            self.spec_cap_candidate(ray, self.spec_a()),
            self.spec_cap_candidate(ray, self.spec_b()),
        );
        if qa == 0 {
            if qc < 0 {
                cap_final(caps)
            } else {
                Option::None
            }
        } else {
            let disc = qb * qb - 4 * (qa * qc);
            if disc < 0 {
                Option::None
            } else {
                let sq = sqrt_floor(disc);
                let x1 = div_tz((-qb + sq) * 1000, 2 * qa);
                let x2 = div_tz((-qb - sq) * 1000, 2 * qa);
                cap_final(
                    min_opt(
                        min_opt(self.spec_lat_candidate(ray, x1), self.spec_lat_candidate(ray, x2)),
                        caps,
                    ),
                )
            }
        }
    }
}

impl Cylinder {
    pub fn new(a: Point, b: Point, r: i64, texture: Texture) -> (res: Cylinder)
        requires
            a.wf(),
            b.wf(),
            0 < r <= COORD_MAX,
            texture.wf(),
            spec_from(a, b).norm2() > 0,
        ensures
            res.wf(),
            res.spec_a() == a,
            res.spec_b() == b,
            res.spec_r() == r,
            res.spec_texture() == texture,
    {
        let direction = Vector::from(a, b).normalize();
        Cylinder { a, b, r, texture, direction }
    }

    /// The exact point coordinates at ray parameter `x`.
    fn point_at(ray: Ray, x: i128) -> (p: (i128, i128, i128))
        requires
            ray.wf(),
            -1_000_000_000_000_000_000 <= x <= 1_000_000_000_000_000_000,
        ensures
            (p.0 as int, p.1 as int, p.2 as int) == cyl_point_at(ray, x as int),
    {
        let v = ray.direction.vector();
        proof {
            lemma_abs_mul_bound(x as int, v.x as int, 1_000_000_000_000_000_000, 1000);
            lemma_abs_mul_bound(x as int, v.y as int, 1_000_000_000_000_000_000, 1000);
            lemma_abs_mul_bound(x as int, v.z as int, 1_000_000_000_000_000_000, 1000);
            lemma_div_tz_bound(x as int * v.x as int, 1000, 1_000_000_000_000_000_000_000);
            lemma_div_tz_bound(x as int * v.y as int, 1000, 1_000_000_000_000_000_000_000);
            lemma_div_tz_bound(x as int * v.z as int, 1000, 1_000_000_000_000_000_000_000);
        }
        (
            ray.origin.0 as i128 + div_trunc(x * (v.x as i128), 1000),
            ray.origin.1 as i128 + div_trunc(x * (v.y as i128), 1000),
            ray.origin.2 as i128 + div_trunc(x * (v.z as i128), 1000),
        )
    }

    /// Whether the hit at `x` lies strictly between the cap planes.
    fn between(&self, ray: Ray, x: i128) -> (r: bool)
        requires
            self.wf(),
            ray.wf(),
            -1_000_000_000_000_000_000 <= x <= 1_000_000_000_000_000_000,
        ensures
            r == self.spec_between(ray, x as int),
    {
        let w = self.direction.vector();
        let p = Cylinder::point_at(ray, x);
        proof {
            let v2 = ray.direction.spec_vector();
            lemma_abs_mul_bound(x as int, v2.x as int, 1_000_000_000_000_000_000, 1000);
            lemma_abs_mul_bound(x as int, v2.y as int, 1_000_000_000_000_000_000, 1000);
            lemma_abs_mul_bound(x as int, v2.z as int, 1_000_000_000_000_000_000, 1000);
            lemma_div_tz_bound(x as int * v2.x as int, 1000, 1_000_000_000_000_000_000_000);
            lemma_div_tz_bound(x as int * v2.y as int, 1000, 1_000_000_000_000_000_000_000);
            lemma_div_tz_bound(x as int * v2.z as int, 1000, 1_000_000_000_000_000_000_000);
            lemma_abs_mul_bound(w.x as int, self.a.0 as int - p.0 as int, 1000, 2_000_000_000_000_000_000_000);
            lemma_abs_mul_bound(w.y as int, self.a.1 as int - p.1 as int, 1000, 2_000_000_000_000_000_000_000);
            lemma_abs_mul_bound(w.z as int, self.a.2 as int - p.2 as int, 1000, 2_000_000_000_000_000_000_000);
            lemma_abs_mul_bound(w.x as int, self.b.0 as int - p.0 as int, 1000, 2_000_000_000_000_000_000_000);
            lemma_abs_mul_bound(w.y as int, self.b.1 as int - p.1 as int, 1000, 2_000_000_000_000_000_000_000);
            lemma_abs_mul_bound(w.z as int, self.b.2 as int - p.2 as int, 1000, 2_000_000_000_000_000_000_000);
        }
        let d1 = (w.x as i128) * (self.a.0 as i128 - p.0) + (w.y as i128) * (self.a.1 as i128 - p.1)
            + (w.z as i128) * (self.a.2 as i128 - p.2);
        let d2 = (w.x as i128) * (self.b.0 as i128 - p.0) + (w.y as i128) * (self.b.1 as i128 - p.1)
            + (w.z as i128) * (self.b.2 as i128 - p.2);
        (d1 < 0 && d2 > 0) || (d1 > 0 && d2 < 0)
    }

    /// The cap candidate through the endpoint `p`.
    fn cap_candidate(&self, ray: Ray, p: Point) -> (r: Option<i128>)
        requires
            self.wf(),
            ray.wf(),
            p.wf(),
        ensures
            match r {
                Option::Some(t) => Option::Some(t as int) == self.spec_cap_candidate(ray, p) && 0
                    <= t <= 37_000_000_000_000_000,
                Option::None => self.spec_cap_candidate(ray, p) matches Option::None,
            },
    {
        let v = ray.direction.vector();
        let w = self.direction.vector();
        let dvw = NormalVector::dot_product(&ray.direction, &self.direction);
        if dvw <= 0 {
            return None;
        }
        let op = Vector::from(ray.origin, p);
        let t_num = Vector::dot_product(&op, &w);
        proof {
            lemma_dot_bound(op, w, 12_200_000_000, 1000);
            lemma_div_tz_bound(spec_dot(op, w) * 1000, dvw as int, 36_600_000_000_000_000);
        }
        let t = div_trunc(t_num * 1000, dvw);
        if t < 0 {
            return None;
        }
        let q = Cylinder::point_at(ray, t);
        proof {
            let v2 = ray.direction.spec_vector();
            lemma_abs_mul_bound(t as int, v2.x as int, 37_000_000_000_000_000, 1000);
            lemma_abs_mul_bound(t as int, v2.y as int, 37_000_000_000_000_000, 1000);
            lemma_abs_mul_bound(t as int, v2.z as int, 37_000_000_000_000_000, 1000);
            lemma_div_tz_bound(t as int * v2.x as int, 1000, 37_000_000_000_000_000_000);
            lemma_div_tz_bound(t as int * v2.y as int, 1000, 37_000_000_000_000_000_000);
            lemma_div_tz_bound(t as int * v2.z as int, 1000, 37_000_000_000_000_000_000);
            lemma_abs_mul_bound(
                q.0 as int - p.0 as int,
                q.0 as int - p.0 as int,
                40_000_000_000_000_000,
                40_000_000_000_000_000,
            );
            lemma_abs_mul_bound(
                q.1 as int - p.1 as int,
                q.1 as int - p.1 as int,
                40_000_000_000_000_000,
                40_000_000_000_000_000,
            );
            lemma_abs_mul_bound(
                q.2 as int - p.2 as int,
                q.2 as int - p.2 as int,
                40_000_000_000_000_000,
                40_000_000_000_000_000,
            );
            lemma_abs_mul_bound(self.r as int, self.r as int, 100_000_000, 100_000_000);
        }
        let dx = q.0 - p.0 as i128;
        let dy = q.1 - p.1 as i128;
        let dz = q.2 - p.2 as i128;
        let n2 = dx * dx + dy * dy + dz * dz;
        let rr = mul_ww(self.r, self.r);
        if n2 <= rr {
            Some(t)
        } else {
            None
        }
    }

    /// The nearest positive intersection distance of `ray` with the
    /// lateral surface or a cap, or `None`.
    pub fn intersects(&self, ray: Ray) -> (res: Option<i64>)
        requires
            self.wf(),
            ray.wf(),
        ensures
            res == self.spec_cyl_intersects(ray),
            res matches Some(t) ==> 0 <= t <= DIST_MAX,
    {
        let d = Vector::from(self.a, ray.origin);
        let v = ray.direction.vector();
        let w = self.direction.vector();
        let dvw = Vector::dot_product(&v, &w);
        let ddw = Vector::dot_product(&d, &w);
        proof {
            lemma_dot_bound(v, w, 1000, 1000);
            lemma_dot_bound(d, w, 5_200_000_000, 1000);
            lemma_abs_mul_bound(w.x as int, dvw as int, 1000, 3_000_000);
            lemma_abs_mul_bound(w.y as int, dvw as int, 1000, 3_000_000);
            lemma_abs_mul_bound(w.z as int, dvw as int, 1000, 3_000_000);
            lemma_div_tz_bound(w.x as int * dvw as int, 1_000_000, 3_000_000_000);
            lemma_div_tz_bound(w.y as int * dvw as int, 1_000_000, 3_000_000_000);
            lemma_div_tz_bound(w.z as int * dvw as int, 1_000_000, 3_000_000_000);
            lemma_abs_mul_bound(w.x as int, ddw as int, 1000, 15_600_000_000_000);
            lemma_abs_mul_bound(w.y as int, ddw as int, 1000, 15_600_000_000_000);
            lemma_abs_mul_bound(w.z as int, ddw as int, 1000, 15_600_000_000_000);
            lemma_div_tz_bound(w.x as int * ddw as int, 1_000_000, 15_600_000_000_000_000);
            lemma_div_tz_bound(w.y as int * ddw as int, 1_000_000, 15_600_000_000_000_000);
            lemma_div_tz_bound(w.z as int * ddw as int, 1_000_000, 15_600_000_000_000_000);
        }
        let sa = Vector::new(
            v.x - div_trunc(mul_ii(w.x as i128, dvw), 1_000_000) as i64,
            v.y - div_trunc(mul_ii(w.y as i128, dvw), 1_000_000) as i64,
            v.z - div_trunc(mul_ii(w.z as i128, dvw), 1_000_000) as i64,
        );
        let sc = Vector::new(
            d.x - div_trunc(mul_ii(w.x as i128, ddw), 1_000_000) as i64,
            d.y - div_trunc(mul_ii(w.y as i128, ddw), 1_000_000) as i64,
            d.z - div_trunc(mul_ii(w.z as i128, ddw), 1_000_000) as i64,
        );
        proof {
            lemma_dot_bound(sa, sa, 4_000, 4_000);
            assert(sa.x as int * sa.x as int >= 0) by (nonlinear_arith);
            assert(sa.y as int * sa.y as int >= 0) by (nonlinear_arith);
            assert(sa.z as int * sa.z as int >= 0) by (nonlinear_arith);
            lemma_dot_bound(sa, sc, 4_000, 20_800_000_000);
            lemma_dot_bound(sc, sc, 20_800_000_000, 20_800_000_000);
            lemma_abs_mul_bound(self.r as int, self.r as int, 100_000_000, 100_000_000);
        }
        let qa = Vector::dot_product(&sa, &sa);
        let qb = 2 * Vector::dot_product(&sa, &sc);
        let rr = mul_ww(self.r, self.r);
        let qc = Vector::dot_product(&sc, &sc) - rr;
        proof {
            lemma_abs_mul_bound(qb as int, qb as int, 500_000_000_000_000, 500_000_000_000_000);
            lemma_abs_mul_bound(qa as int, qc as int, 48_000_000, 1_400_000_000_000_000_000_000);
        }
        let cap_a = self.cap_candidate(ray, self.a);
        let cap_b = self.cap_candidate(ray, self.b);
        let caps: Option<i128> = match (cap_a, cap_b) {
            (None, yy) => yy,
            (xx, None) => xx,
            (Some(xv), Some(yv)) => if xv < yv {
                Some(xv)
            } else {
                Some(yv)
            },
        };
        if qa == 0 {
            if qc < 0 {
                match caps {
                    None => None,
                    Some(m) => if m <= DIST_MAX as i128 {
                        Some(m as i64)
                    } else {
                        None
                    },
                }
            } else {
                None
            }
        } else {
            let disc = qb * qb - 4 * (qa * qc);
            if disc < 0 {
                return None;
            }
            let sq = isqrt(disc as u128) as i128;
            proof {
                let sqi = sq as int;
                assert(sqi <= 800_000_000_000_000) by (nonlinear_arith)
                    requires
                        0 <= sqi,
                        sqi * sqi <= 520_000_000_000_000_000_000_000_000_000int,
                ;
                lemma_sqrt_floor_unique(disc as int, sqi);
                lemma_cyl_root_bounds(-(qb as int) + sqi, qa as int);
                lemma_cyl_root_bounds(-(qb as int) - sqi, qa as int);
            }
            let x1 = div_trunc((-qb + sq) * 1000, 2 * qa);
            let x2 = div_trunc((-qb - sq) * 1000, 2 * qa);
            let lat1: Option<i128> = if x1 > 0 && self.between(ray, x1) {
                Some(x1)
            } else {
                None
            };
            let lat2: Option<i128> = if x2 > 0 && self.between(ray, x2) {
                Some(x2)
            } else {
                None
            };
            let lats: Option<i128> = match (lat1, lat2) {
                (None, yy) => yy,
                (xx, None) => xx,
                (Some(xv), Some(yv)) => if xv < yv {
                    Some(xv)
                } else {
                    Some(yv)
                },
            };
            let best: Option<i128> = match (lats, caps) {
                (None, yy) => yy,
                (xx, None) => xx,
                (Some(xv), Some(yv)) => if xv < yv {
                    Some(xv)
                } else {
                    Some(yv)
                },
            };
            match best {
                None => None,
                Some(m) => if m <= DIST_MAX as i128 {
                    Some(m as i64)
                } else {
                    None
                },
            }
        }
    }
}

/// The outward direction at `p`: radially away from the axis, from
/// the projection of `p` onto the axis line.  A point on the axis
/// falls back to a fixed direction.
pub open spec fn spec_cyl_normal(cy: Cylinder, p: Point) -> Vector {
    let n = cy.spec_direction().spec_vector();
    let ap = spec_from(cy.spec_a(), p);
    let dot = spec_dot(ap, n);
    let v = Vector {
        x: (p.0 - (cy.spec_a().0 + div_tz(dot * n.x, 1_000_000))) as i64,
        y: (p.1 - (cy.spec_a().1 + div_tz(dot * n.y, 1_000_000))) as i64,
        z: (p.2 - (cy.spec_a().2 + div_tz(dot * n.z, 1_000_000))) as i64,
    };
    if v == (Vector { x: 0i64, y: 0i64, z: 0i64 }) {
        spec_normalize(Vector { x: 0i64, y: 0i64, z: SCALE })
    } else {
        spec_normalize(v)
    }
}

/// A fixed radial reference direction, perpendicular to the axis: the
/// axis crossed with whichever coordinate axis is not parallel to it.
pub open spec fn spec_cyl_ref(cy: Cylinder) -> Vector {
    let w = cy.spec_direction().spec_vector();
    let cx = crate::geometry::vector::spec_cross(w, Vector { x: SCALE, y: 0i64, z: 0i64 });
    if cx == (Vector { x: 0i64, y: 0i64, z: 0i64 }) {
        spec_normalize(
            crate::geometry::vector::spec_cross(w, Vector { x: 0i64, y: SCALE, z: 0i64 }),
        )
    } else {
        spec_normalize(cx)
    }
}

/// The clamp of a scaled dot product into the cosine range.
pub open spec fn unit_clamp(x: int) -> int {
    if x < -1000 {
        -1000
    } else if x > 1000 {
        1000
    } else {
        x
    }
}

/// Texture coordinates on the lateral surface: `u` from the angle
/// around the axis against the fixed reference, `v` from the height of
/// the projection along the axis.
pub open spec fn spec_cyl_uv(cy: Cylinder, p: Point) -> (int, int) {
    let n = cy.spec_direction().spec_vector();
    let np = spec_cyl_normal(cy, p);
    let cosu = unit_clamp(div_tz(spec_dot(spec_cyl_ref(cy), np), 1000));
    let u = div_tz(
        (crate::trig::HALF_PI_MILLI - crate::trig::spec_asin_milli(cosu)) * 1000,
        crate::trig::PI_MILLI as int,
    );
    let len = sqrt_floor(spec_from(cy.spec_a(), cy.spec_b()).norm2());
    let v = div_tz(spec_dot(spec_from(cy.spec_a(), p), n), len);
    (u, v)
}

impl Cylinder {
    /// The outward unit normal at `p`.
    pub fn normal(&self, p: Point) -> (r: NormalVector)
        requires
            self.wf(),
            p.in_world(),
        ensures
            r.spec_vector() == spec_cyl_normal(*self, p),
            r.wf(),
    {
        let n = self.direction.vector();
        let ap = Vector::from(self.a, p);
        let dot = Vector::dot_product(&ap, &n);
        proof {
            lemma_dot_bound(ap, n, 7_200_000_000, 1000);
            lemma_abs_mul_bound(dot as int, n.x as int, 21_600_000_000_000, 1000);
            lemma_abs_mul_bound(dot as int, n.y as int, 21_600_000_000_000, 1000);
            lemma_abs_mul_bound(dot as int, n.z as int, 21_600_000_000_000, 1000);
            lemma_div_tz_bound(dot as int * n.x as int, 1_000_000, 21_600_000_000_000_000);
            lemma_div_tz_bound(dot as int * n.y as int, 1_000_000, 21_600_000_000_000_000);
            lemma_div_tz_bound(dot as int * n.z as int, 1_000_000, 21_600_000_000_000_000);
        }
        let vx = p.0 - (self.a.0 + div_trunc(mul_ii(dot, n.x as i128), 1_000_000) as i64);
        let vy = p.1 - (self.a.1 + div_trunc(mul_ii(dot, n.y as i128), 1_000_000) as i64);
        let vz = p.2 - (self.a.2 + div_trunc(mul_ii(dot, n.z as i128), 1_000_000) as i64);
        let rv = Vector::new(vx, vy, vz);
        if vx == 0 && vy == 0 && vz == 0 {
            Vector::new(0, 0, SCALE).normalize()
        } else {
            proof {
                assert(rv.norm2() > 0) by (nonlinear_arith)
                    requires
                        rv.x != 0 || rv.y != 0 || rv.z != 0,
                        rv.norm2() == rv.x as int * rv.x as int + rv.y as int * rv.y as int
                            + rv.z as int * rv.z as int,
                ;
            }
            rv.normalize()
        }
    }

    /// Texture coordinates at `p`: the angle around the axis and the
    /// height along it.
    #[verifier::rlimit(60)]
    pub fn map_to_texture(&self, p: Point) -> (r: (i64, i64))
        requires
            self.wf(),
            p.in_world(),
        ensures
            (r.0 as int, r.1 as int) == spec_cyl_uv(*self, p),
            0 <= r.0 <= SCALE,
            -25_000_000_000_000 <= r.1 <= 25_000_000_000_000,
    {
        let w = self.direction.vector();
        let ex = Vector::new(SCALE, 0, 0);
        let cx = Vector::cross_product(&w, &ex);
        proof {
            assert(cx.x as int == 0 && cx.y as int == 1000 * (w.z as int) && cx.z as int == -(
            1000 * (w.y as int))) by (nonlinear_arith)
                requires
                    cx.x as int == w.y as int * 0 - w.z as int * 0,
                    cx.y as int == w.z as int * 1000 - w.x as int * 0,
                    cx.z as int == w.x as int * 0 - w.y as int * 1000,
            ;
        }
        let refv: NormalVector = if cx.x == 0 && cx.y == 0 && cx.z == 0 {
            proof {
                assert(w.x as int * w.x as int >= 250_000 && w.x as int != 0) by (nonlinear_arith)
                    requires
                        w.y as int == 0,
                        w.z as int == 0,
                        w.x as int * w.x as int + w.y as int * w.y as int + w.z as int
                            * w.z as int >= 250_000,
                ;
            }
            let ey = Vector::new(0, SCALE, 0);
            let cy2 = Vector::cross_product(&w, &ey);
            proof {
                assert(cy2.x as int == -(1000 * (w.z as int)) && cy2.y as int == 0 && cy2.z as int
                    == 1000 * (w.x as int)) by (nonlinear_arith)
                    requires
                        cy2.x as int == w.y as int * 0 - w.z as int * 1000,
                        cy2.y as int == w.z as int * 0 - w.x as int * 0,
                        cy2.z as int == w.x as int * 1000 - w.y as int * 0,
                ;
                assert(cy2.norm2() > 0) by (nonlinear_arith)
                    requires
                        cy2.x != 0 || cy2.y != 0 || cy2.z != 0,
                        cy2.norm2() == cy2.x as int * cy2.x as int + cy2.y as int * cy2.y as int
                            + cy2.z as int * cy2.z as int,
                ;
            }
            cy2.normalize()
        } else {
            proof {
                assert(cx.norm2() > 0) by (nonlinear_arith)
                    requires
                        cx.x != 0 || cx.y != 0 || cx.z != 0,
                        cx.norm2() == cx.x as int * cx.x as int + cx.y as int * cx.y as int
                            + cx.z as int * cx.z as int,
                ;
            }
            cx.normalize()
        };
        let np = self.normal(p);
        let dotu = NormalVector::dot_product(&refv, &np);
        proof {
            lemma_dot_bound(refv.spec_vector(), np.spec_vector(), 1000, 1000);
            lemma_div_tz_bound(spec_dot(refv.spec_vector(), np.spec_vector()), 1000, 3_000_000);
        }
        let cos_raw = div_trunc(dotu, 1000) as i64;
        let cosu: i64 = if cos_raw < -1000 {
            -1000
        } else if cos_raw > 1000 {
            1000
        } else {
            cos_raw
        };
        let acos = crate::trig::acos_milli(cosu);
        proof {
            lemma_div_tz_bound(acos as int * 1000, crate::trig::PI_MILLI as int, 3_142_000);
            vstd::arithmetic::div_mod::lemma_div_pos_is_pos(
                acos as int * 1000,
                crate::trig::PI_MILLI as int,
            );
        }
        let u = div_trunc(acos as i128 * 1000, crate::trig::PI_MILLI as i128) as i64;
        let axis = Vector::from(self.a, self.b);
        let len = axis.norm();
        proof {
            assert(len >= 1) by (nonlinear_arith)
                requires
                    (len as int + 1) * (len as int + 1) > axis.norm2(),
                    axis.norm2() > 0,
                    len >= 0,
            ;
        }
        let ap = Vector::from(self.a, p);
        let dotv = Vector::dot_product(&ap, &self.direction.vector());
        proof {
            lemma_dot_bound(ap, self.direction.spec_vector(), 7_200_000_000, 1000);
            lemma_div_tz_bound(spec_dot(ap, self.direction.spec_vector()), len as int, 21_600_000_000_000);
        }
        let v = div_trunc(dotv, len as i128) as i64;
        (u, v)
    }

    /// The diffuse intensity factors at `p`, via the texture map.
    pub fn diffusion(&self, p: Point) -> (r: (i64, i64, i64))
        requires
            self.wf(),
            p.in_world(),
        ensures
            ({
                let uv = spec_cyl_uv(*self, p);
                (r.0 as int, r.1 as int, r.2 as int) == spec_diffusion(
                    self.spec_texture(),
                    uv.0,
                    uv.1,
                )
            }),
            0 <= r.0 <= 255 * SCALE * 10,
            0 <= r.1 <= 255 * SCALE * 10,
            0 <= r.2 <= 255 * SCALE * 10,
    {
        let (u, v) = self.map_to_texture(p);
        self.texture.diffusion(u, v)
    }

    /// The specular coefficient; uniform over the surface.
    pub fn specularity(&self) -> (r: i64)
        requires
            self.wf(),
        ensures
            r as int == spec_specularity(self.spec_texture()),
            0 <= r <= 10 * SCALE,
    {
        self.texture.specularity()
    }
}

/// A lateral root numerator divided by `2 qa` stays within `i128`
/// comfortably and within the range the candidate filters expect.
proof fn lemma_cyl_root_bounds(num: int, qa: int)
    requires
        -1_300_000_000_000_000 <= num <= 1_300_000_000_000_000,
        1 <= qa <= 48_000_000,
    ensures
        -(650_000_000_000_000_000int) <= div_tz(num * 1000, 2 * qa) <= 650_000_000_000_000_000int,
{
    lemma_div_tz_bound(num * 1000, 2 * qa, 1_300_000_000_000_000_000);
    lemma_div_pos_is_pos(1_300_000_000_000_000_000, 2 * qa);
    lemma_div_is_ordered_by_denominator(1_300_000_000_000_000_000, 2, 2 * qa);
}

/// The far-plane filter on the chosen minimum.
pub open spec fn cap_final(o: Option<int>) -> Option<i64> {
    match o {
        Option::None => Option::None,
        Option::Some(m) => if m <= DIST_MAX as int {
            Option::Some(m as i64)
        } else {
            Option::None
        },
    }
}

} // verus!
