//! Rays: an origin, a unit direction, and a reflective energy budget.

use vstd::prelude::*;
use crate::geometry::vector::in_range;
use crate::geometry::vector::nv_of;
use crate::geometry::vector::spec_dot;
use crate::geometry::vector::spec_normalize;
use crate::geometry::{NormalVector, Point, Vector};
use crate::num::SCALE;
use crate::num::div_trunc;
use crate::num::div_tz;
use crate::num::mul_ii;
use crate::num::mul_ww;

verus! {

/// How far from the scene a ray's origin may drift, given its
/// remaining energy: each mirror bounce spends 700 energy and moves
/// the origin by at most one far-plane distance plus the offset that
/// avoids self-intersection.
pub open spec fn origin_limit(energy: int) -> int {
    2_000_000_000 + (1000 - energy) * 3_000_000
}

/// A candidate intersection distance, kept only when it lies inside
/// the far plane; anything beyond `DIST_MAX` counts as a miss.
pub open spec fn cap_dist(t: int) -> Option<i64> {
    if t <= crate::num::DIST_MAX {
        Some(t as i64)
    } else {
        None
    }
}

/// A ray with a fixed-point energy budget; `SCALE` stands for a full
/// budget of one.
#[derive(Clone, Copy, Debug, PartialEq, Eq, Structural)]
pub struct Ray {
    pub energy: i64,
    pub origin: Point,
    pub direction: NormalVector,
}

/// The exact reflection of `d` about `n` before renormalizing:
/// `d - 2 (d . n) n`, evaluated in fixed point.
pub open spec fn spec_reflect_vec(d: Vector, n: Vector) -> Vector {
    let dot = spec_dot(d, n);
    Vector {
        x: div_tz(d.x * 1_000_000 - 2 * (n.x * dot), 1_000_000) as i64,
        y: div_tz(d.y * 1_000_000 - 2 * (n.y * dot), 1_000_000) as i64,
        z: div_tz(d.z * 1_000_000 - 2 * (n.z * dot), 1_000_000) as i64,
    }
}

/// The reflected direction after renormalizing, with the
/// along-the-normal degenerate case reversing the incoming direction.
pub open spec fn spec_reflected_dir(d: Vector, n: Vector) -> Vector {
    let rv = spec_reflect_vec(d, n);
    if rv == (Vector { x: 0i64, y: 0i64, z: 0i64 }) {
        Vector { x: (-d.x) as i64, y: (-d.y) as i64, z: (-d.z) as i64 }
    } else {
        spec_normalize(rv)
    }
}

impl Ray {
    /// Energy within budget, unit direction, origin within the drift
    /// limit for that energy.
    pub open spec fn wf(self) -> bool {
        0 <= self.energy <= SCALE && self.direction.wf() && in_range(
            self.origin.0 as int,
            origin_limit(self.energy as int),
        ) && in_range(self.origin.1 as int, origin_limit(self.energy as int)) && in_range(
            self.origin.2 as int,
            origin_limit(self.energy as int),
        )
    }

    /// The mirror image of this ray's direction about `normal`.  When
    /// the exact image rounds to the zero vector (the ray runs along
    /// the normal), the reversed direction is returned instead.
    pub fn reflected(&self, normal: &NormalVector) -> (r: NormalVector)
        requires
            self.wf(),
            normal.wf(),
        ensures
            r.wf(),
            r == nv_of(spec_reflected_dir(self.direction.spec_vector(), normal.spec_vector())),
            r.spec_vector() == spec_reflected_dir(
                self.direction.spec_vector(),
                normal.spec_vector(),
            ),
    {
        let d = self.direction.vector();
        let n = normal.vector();
        let dot = Vector::dot_product(&d, &n);
        proof {
            lemma_reflect_bounds(d, n, spec_dot(d, n));
        }
        let nx = mul_ii(n.x as i128, dot);
        let ny = mul_ii(n.y as i128, dot);
        let nz = mul_ii(n.z as i128, dot);
        let rx = div_trunc(mul_ww(d.x, 1_000_000) - 2 * nx, 1_000_000) as i64;
        let ry = div_trunc(mul_ww(d.y, 1_000_000) - 2 * ny, 1_000_000) as i64;
        let rz = div_trunc(mul_ww(d.z, 1_000_000) - 2 * nz, 1_000_000) as i64;
        if rx == 0 && ry == 0 && rz == 0 {
            self.direction.neg()
        } else {
            let rv = Vector { x: rx, y: ry, z: rz };
            proof {
                assert(rv.norm2() > 0) by (nonlinear_arith)
                    requires
                        rv.x != 0 || rv.y != 0 || rv.z != 0,
                        rv.norm2() == rv.x as int * rv.x as int + rv.y as int * rv.y as int
                            + rv.z as int * rv.z as int,
                ;
            }
            rv.normalize()
        }
    }
}

/// The reflection numerators stay small for unit-length inputs.
proof fn lemma_reflect_bounds(d: Vector, n: Vector, dot: int)
    requires
        d.bounded(SCALE as int),
        n.bounded(SCALE as int),
        dot == spec_dot(d, n),
    ensures
        -3_000_000 <= dot <= 3_000_000,
        -7_000_000_000 <= d.x * 1_000_000 - 2 * (n.x * dot) <= 7_000_000_000,
        -7_000_000_000 <= d.y * 1_000_000 - 2 * (n.y * dot) <= 7_000_000_000,
        -7_000_000_000 <= d.z * 1_000_000 - 2 * (n.z * dot) <= 7_000_000_000,
        -7_000 <= div_tz(d.x * 1_000_000 - 2 * (n.x * dot), 1_000_000) <= 7_000,
        -7_000 <= div_tz(d.y * 1_000_000 - 2 * (n.y * dot), 1_000_000) <= 7_000,
        -7_000 <= div_tz(d.z * 1_000_000 - 2 * (n.z * dot), 1_000_000) <= 7_000,
{
    crate::num::lemma_abs_mul_bound(d.x as int, n.x as int, 1_000, 1_000);
    crate::num::lemma_abs_mul_bound(d.y as int, n.y as int, 1_000, 1_000);
    crate::num::lemma_abs_mul_bound(d.z as int, n.z as int, 1_000, 1_000);
    crate::num::lemma_abs_mul_bound(n.x as int, dot, 1_000, 3_000_000);
    crate::num::lemma_abs_mul_bound(n.y as int, dot, 1_000, 3_000_000);
    crate::num::lemma_abs_mul_bound(n.z as int, dot, 1_000, 3_000_000);
    crate::num::lemma_div_tz_bound(d.x * 1_000_000 - 2 * (n.x * dot), 1_000_000, 7_000_000_000);
    crate::num::lemma_div_tz_bound(d.y * 1_000_000 - 2 * (n.y * dot), 1_000_000, 7_000_000_000);
    crate::num::lemma_div_tz_bound(d.z * 1_000_000 - 2 * (n.z * dot), 1_000_000, 7_000_000_000);
}

} // verus!
