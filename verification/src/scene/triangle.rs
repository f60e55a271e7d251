//! Triangles: three vertices and a material, flat shaded.

use vstd::prelude::*;
use crate::geometry::vector::lemma_dot_bound;
use crate::geometry::vector::spec_cross;
use crate::geometry::vector::spec_dot;
use crate::geometry::vector::spec_from;
use crate::geometry::vector::spec_normalize;
use crate::geometry::{NormalVector, Point, Vector};
use crate::num::DIST_MAX;
use crate::num::SCALE;
use crate::num::div_trunc;
use crate::num::div_tz;
use crate::scene::ray::Ray;
use crate::scene::ray::cap_dist;
use crate::scene::texture::Texture;
use crate::scene::texture::spec_diffusion;
use crate::scene::texture::spec_specularity;
use vstd::arithmetic::div_mod::lemma_div_pos_is_pos;

verus! {

/// A triangle with a material.  The normal is constant over the face.
pub struct Triangle {
    points: (Point, Point, Point),
    texture: Texture,
}

/// The exact intersection result, following the Moeller-Trumbore
/// scheme with sign tests in place of divisions: a zero determinant is
/// a parallel ray; the barycentric numerators must lie within the
/// determinant; the distance must be nonnegative and inside the far
/// plane.
pub open spec fn spec_tri_intersects(tr: Triangle, ray: Ray) -> Option<i64> {
    let (a, b, c) = tr.spec_points();
    let ab = spec_from(a, b);
    let ac = spec_from(a, c);
    let d = ray.direction.spec_vector();
    let h = spec_cross(d, ac);
    let det = spec_dot(ab, h);
    if det == 0 {
        None
    } else {
        let pos = det > 0;
        let ao = spec_from(a, ray.origin);
        let un = if pos { spec_dot(ao, h) } else { -spec_dot(ao, h) };
        let dn = if pos { det } else { -det };
        if un < 0 || un > dn {
            None
        } else {
            let q = spec_cross(ao, ab);
            let vn = if pos { spec_dot(d, q) } else { -spec_dot(d, q) };
            if vn < 0 || un + vn > dn {
                None
            } else {
                let tn = if pos { spec_dot(ac, q) } else { -spec_dot(ac, q) };
                if tn < 0 {
                    None
                } else {
                    cap_dist(div_tz(tn * SCALE, dn))
                }
            }
        }
    }
}

/// The face direction: the cross product of the two edges from the
/// first vertex.  A degenerate (colinear) triangle falls back to a
/// fixed axis.
pub open spec fn spec_tri_normal(tr: Triangle) -> Vector {
    let (a, b, c) = tr.spec_points();
    let n = spec_cross(spec_from(a, b), spec_from(a, c));
    if n == (Vector { x: 0i64, y: 0i64, z: 0i64 }) {
        spec_normalize(Vector { x: 0i64, y: 0i64, z: SCALE })
    } else {
        spec_normalize(n)
    }
}

impl Triangle {
    pub closed spec fn spec_points(self) -> (Point, Point, Point) {
        self.points
    }

    pub closed spec fn spec_texture(self) -> Texture {
        self.texture
    }

    /// Vertices in the scene, material well formed.
    pub open spec fn wf(self) -> bool {
        self.spec_points().0.wf() && self.spec_points().1.wf() && self.spec_points().2.wf()
            && self.spec_texture().wf()
    }

    pub fn new(points: (Point, Point, Point), texture: Texture) -> (r: Triangle)
        requires
            points.0.wf(),
            points.1.wf(),
            points.2.wf(),
            texture.wf(),
        ensures
            r.wf(),
            r.spec_points() == points,
            r.spec_texture() == texture,
    {
        Triangle { points, texture }
    }

    /// The intersection distance of `ray` with this face, or `None`.
    pub fn intersects(&self, ray: Ray) -> (r: Option<i64>)
        requires
            self.wf(),
            ray.wf(),
        ensures
            r == spec_tri_intersects(*self, ray),
            r matches Some(t) ==> 0 <= t <= DIST_MAX,
    {
        let (a, b, c) = self.points;
        let ab = Vector::from(a, b);
        let ac = Vector::from(a, c);
        let d = ray.direction.vector();
        let h = Vector::cross_product(&d, &ac);
        let det = Vector::dot_product(&ab, &h);
        if det == 0 {
            return None;
        }
        let ao = Vector::from(a, ray.origin);
        let u_num = Vector::dot_product(&ao, &h);
        proof {
            lemma_dot_bound(ab, h, 200_000_000, 9_000_000_000_000_000_000);
            lemma_dot_bound(ao, h, 5_200_000_000, 9_000_000_000_000_000_000);
            lemma_dot_bound(d, h, 1_000, 9_000_000_000_000_000_000);
        }
        let (un, dn) = if det > 0 {
            (u_num, det)
        } else {
            (-u_num, -det)
        };
        if un < 0 || un > dn {
            return None;
        }
        let q = Vector::cross_product(&ao, &ab);
        let v_num = Vector::dot_product(&d, &q);
        proof {
            lemma_dot_bound(d, q, 1_000, 9_000_000_000_000_000_000);
            lemma_dot_bound(ac, q, 200_000_000, 9_000_000_000_000_000_000);
        }
        let vn = if det > 0 {
            v_num
        } else {
            -v_num
        };
        if vn < 0 || un + vn > dn {
            return None;
        }
        let t_num = Vector::dot_product(&ac, &q);
        let tn = if det > 0 {
            t_num
        } else {
            -t_num
        };
        if tn < 0 {
            return None;
        }
        proof {
            lemma_dot_bound(ac, q, 200_000_000, 9_000_000_000_000_000_000);
            lemma_div_pos_is_pos(tn as int * SCALE as int, dn as int);
        }
        let tt = div_trunc(tn * (SCALE as i128), dn);
        if tt <= DIST_MAX as i128 {
            Some(tt as i64)
        } else {
            None
        }
    }

    /// The unit normal of the face; the hit point does not matter for
    /// a flat triangle.
    pub fn normal(&self) -> (r: NormalVector)
        requires
            self.wf(),
        ensures
            r.spec_vector() == spec_tri_normal(*self),
            r.wf(),
    {
        let (a, b, c) = self.points;
        let ab = Vector::from(a, b);
        let ac = Vector::from(a, c);
        let n = Vector::cross_product(&ab, &ac);
        proof {
            crate::num::lemma_abs_mul_bound(ab.y as int, ac.z as int, 200_000_000, 200_000_000);
            crate::num::lemma_abs_mul_bound(ab.z as int, ac.y as int, 200_000_000, 200_000_000);
            crate::num::lemma_abs_mul_bound(ab.z as int, ac.x as int, 200_000_000, 200_000_000);
            crate::num::lemma_abs_mul_bound(ab.x as int, ac.z as int, 200_000_000, 200_000_000);
            crate::num::lemma_abs_mul_bound(ab.x as int, ac.y as int, 200_000_000, 200_000_000);
            crate::num::lemma_abs_mul_bound(ab.y as int, ac.x as int, 200_000_000, 200_000_000);
        }
        if n.x == 0 && n.y == 0 && n.z == 0 {
            Vector::new(0, 0, SCALE).normalize()
        } else {
            proof {
                assert(n.norm2() > 0) by (nonlinear_arith)
                    requires
                        n.x != 0 || n.y != 0 || n.z != 0,
                        n.norm2() == n.x as int * n.x as int + n.y as int * n.y as int + n.z as int
                            * n.z as int,
                ;
            }
            n.normalize()
        }
    }

    /// The diffuse intensity factors; a flat triangle samples its
    /// material at the origin of texture space.
    pub fn diffusion(&self) -> (r: (i64, i64, i64))
        requires
            self.wf(),
        ensures
            (r.0 as int, r.1 as int, r.2 as int) == spec_diffusion(self.spec_texture(), 0, 0),
            0 <= r.0 <= 255 * SCALE * 10,
            0 <= r.1 <= 255 * SCALE * 10,
            0 <= r.2 <= 255 * SCALE * 10,
    {
        self.texture.diffusion(0, 0)
    }

    /// The specular coefficient; uniform over the face.
    pub fn specularity(&self) -> (r: i64)
        requires
            self.wf(),
        ensures
            r as int == spec_specularity(self.spec_texture()),
            0 <= r <= 10 * SCALE,
    {
        self.texture.specularity()
    }

    /// The texture coordinates; constant for a flat triangle.
    pub fn map_to_texture(&self) -> (r: (i64, i64))
        ensures
            r == (0i64, 0i64),
    {
        (0, 0)
    }
}

} // verus!
