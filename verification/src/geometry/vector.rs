//! Points, free vectors and unit-length direction vectors.
//!
//! Coordinates are raw fixed-point integers: `SCALE` raw steps make one
//! world unit.  A `NormalVector` is produced only by `normalize` and
//! carries the invariant that its components are at most `SCALE` in
//! magnitude while its squared norm stays above `(SCALE / 2)^2`.

use vstd::prelude::*;
use vstd::arithmetic::div_mod::lemma_div_multiples_vanish;
use vstd::arithmetic::div_mod::lemma_fundamental_div_mod;
use vstd::arithmetic::div_mod::lemma_mod_division_less_than_divisor;
use crate::num::COORD_MAX;
use crate::num::PT_MAX;
use crate::num::SCALE;
use crate::num::div_trunc;
use crate::num::div_tz;
use crate::num::isqrt;
use crate::num::lemma_abs_mul_bound;
use crate::num::lemma_div_tz_bound;
use crate::num::mul_ww;

verus! {

/// An absolute position, as three raw fixed-point coordinates.
#[derive(Clone, Copy, Debug, PartialEq, Eq, Structural)]
pub struct Point(pub i64, pub i64, pub i64);

/// A free displacement, as three raw fixed-point components.
#[derive(Clone, Copy, Debug, PartialEq, Eq, Structural)]
pub struct Vector {
    pub x: i64,
    pub y: i64,
    pub z: i64,
}

/// A direction: a vector scaled to unit length by `normalize`.
#[derive(Clone, Copy, Debug, PartialEq, Eq, Structural)]
pub struct NormalVector(Vector);

/// Whether `c` lies within `[-m, m]`.
pub open spec fn in_range(c: int, m: int) -> bool {
    -m <= c <= m
}

impl Point {
    /// A well-formed scene point keeps every coordinate within `COORD_MAX`.
    pub open spec fn wf(self) -> bool {
        in_range(self.0 as int, COORD_MAX as int) && in_range(self.1 as int, COORD_MAX as int)
            && in_range(self.2 as int, COORD_MAX as int)
    }

    /// A point a ray may pass through: scene points plus the headroom
    /// that bounded bouncing can add.
    pub open spec fn in_world(self) -> bool {
        in_range(self.0 as int, PT_MAX as int) && in_range(self.1 as int, PT_MAX as int)
            && in_range(self.2 as int, PT_MAX as int)
    }
}

impl Vector {
    /// Whether every component lies within `[-m, m]`.
    pub open spec fn bounded(self, m: int) -> bool {
        in_range(self.x as int, m) && in_range(self.y as int, m) && in_range(self.z as int, m)
    }

    /// The squared euclidean norm, exactly.
    pub open spec fn norm2(self) -> int {
        self.x * self.x + self.y * self.y + self.z * self.z
    }
}

/// The dot product, exactly.
pub open spec fn spec_dot(a: Vector, b: Vector) -> int {
    a.x * b.x + a.y * b.y + a.z * b.z
}

/// The components of the cross product, exactly.
pub open spec fn cross_x(a: Vector, b: Vector) -> int {
    a.y * b.z - a.z * b.y
}

pub open spec fn cross_y(a: Vector, b: Vector) -> int {
    a.z * b.x - a.x * b.z
}

pub open spec fn cross_z(a: Vector, b: Vector) -> int {
    a.x * b.y - a.y * b.x
}

/// The cross product as a vector, for component-bounded arguments.
pub open spec fn spec_cross(a: Vector, b: Vector) -> Vector {
    Vector { x: cross_x(a, b) as i64, y: cross_y(a, b) as i64, z: cross_z(a, b) as i64 }
}

/// A dot product is bounded by three times the product of the
/// component bounds.
pub proof fn lemma_dot_bound(a: Vector, b: Vector, ma: int, mb: int)
    requires
        a.bounded(ma),
        b.bounded(mb),
        0 <= ma,
        0 <= mb,
    ensures
        -(3 * (ma * mb)) <= spec_dot(a, b) <= 3 * (ma * mb),
{
    lemma_abs_mul_bound(a.x as int, b.x as int, ma, mb);
    lemma_abs_mul_bound(a.y as int, b.y as int, ma, mb);
    lemma_abs_mul_bound(a.z as int, b.z as int, ma, mb);
}

/// The floor of the square root of a nonnegative integer.
pub open spec fn sqrt_floor(m: int) -> int {
    choose|r: int| 0 <= r && #[trigger] (r * r) <= m && (r + 1) * (r + 1) > m
}

/// The square-root floor exists for every nonnegative integer.
pub proof fn lemma_sqrt_floor_exists(m: int)
    requires
        0 <= m,
    ensures
        0 <= sqrt_floor(m),
        sqrt_floor(m) * sqrt_floor(m) <= m,
        (sqrt_floor(m) + 1) * (sqrt_floor(m) + 1) > m,
    decreases m,
{
    if m == 0 {
        assert(0 * 0 <= 0 && (0 + 1) * (0 + 1) > 0) by (nonlinear_arith);
        assert(exists|r: int| 0 <= r && #[trigger] (r * r) <= m && (r + 1) * (r + 1) > m);
    } else {
        lemma_sqrt_floor_exists(m - 1);
        let r = sqrt_floor(m - 1);
        if (r + 1) * (r + 1) <= m {
            assert(0 <= r + 1 && (r + 1) * (r + 1) <= m && (r + 2) * (r + 2) > m)
                by (nonlinear_arith)
                requires
                    0 <= r,
                    r * r <= m - 1,
                    (r + 1) * (r + 1) > m - 1,
                    (r + 1) * (r + 1) <= m,
            ;
            assert(exists|q: int| 0 <= q && #[trigger] (q * q) <= m && (q + 1) * (q + 1) > m);
        } else {
            assert(exists|q: int| 0 <= q && #[trigger] (q * q) <= m && (q + 1) * (q + 1) > m);
        }
    }
}

/// Any value with the square-root-floor property equals `sqrt_floor`.
pub proof fn lemma_sqrt_floor_unique(m: int, r: int)
    requires
        0 <= m,
        0 <= r,
        r * r <= m,
        (r + 1) * (r + 1) > m,
    ensures
        r == sqrt_floor(m),
{
    lemma_sqrt_floor_exists(m);
    let s = sqrt_floor(m);
    assert(r == s) by (nonlinear_arith)
        requires
            0 <= r,
            0 <= s,
            r * r <= m,
            (r + 1) * (r + 1) > m,
            s * s <= m,
            (s + 1) * (s + 1) > m,
    ;
}

/// A direction value holding exactly `v`, for specifications; every
/// execution path that yields a `NormalVector` ties its result to this
/// constructor.
pub closed spec fn nv_of(v: Vector) -> NormalVector {
    NormalVector(v)
}

/// What `nv_of` holds.
pub proof fn lemma_nv_of(v: Vector)
    ensures
        nv_of(v).spec_vector() == v,
{
}

/// A vector with a nonzero component has a positive squared norm.
pub proof fn lemma_norm2_pos(v: Vector)
    requires
        v.x != 0 || v.y != 0 || v.z != 0,
    ensures
        v.norm2() > 0,
{
    assert(v.norm2() > 0) by (nonlinear_arith)
        requires
            v.x != 0 || v.y != 0 || v.z != 0,
            v.norm2() == v.x as int * v.x as int + v.y as int * v.y as int + v.z as int
                * v.z as int,
    ;
}

/// Directions with the same underlying vector are the same direction.
pub proof fn lemma_nv_eq(a: NormalVector, b: NormalVector)
    requires
        a.spec_vector() == b.spec_vector(),
    ensures
        a == b,
{
}

/// The displacement from `src` to `dst`, exactly.
pub open spec fn spec_from(src: Point, dst: Point) -> Vector {
    Vector {
        x: (dst.0 - src.0) as i64,
        y: (dst.1 - src.1) as i64,
        z: (dst.2 - src.2) as i64,
    }
}

/// The exact result of `normalize`: each component is scaled by
/// `SCALE` and divided by the norm, rounding toward zero.
pub open spec fn spec_normalize(v: Vector) -> Vector {
    let n = sqrt_floor(v.norm2());
    Vector {
        x: div_tz(v.x * SCALE, n) as i64,
        y: div_tz(v.y * SCALE, n) as i64,
        z: div_tz(v.z * SCALE, n) as i64,
    }
}

impl Vector {
    pub fn new(x: i64, y: i64, z: i64) -> (r: Vector)
        ensures
            r == (Vector { x, y, z }),
    {
        Vector { x, y, z }
    }

    /// The displacement from `src` to `dst`.
    pub fn from(src: Point, dst: Point) -> (r: Vector)
        requires
            src.in_world(),
            dst.in_world(),
        ensures
            r == spec_from(src, dst),
            r.x == dst.0 - src.0,
            r.y == dst.1 - src.1,
            r.z == dst.2 - src.2,
            r.bounded(2 * PT_MAX as int),
    {
        Vector { x: dst.0 - src.0, y: dst.1 - src.1, z: dst.2 - src.2 }
    }

    /// Componentwise sum.
    pub fn add(self, rhs: Vector) -> (r: Vector)
        requires
            i64::MIN <= self.x + rhs.x <= i64::MAX,
            i64::MIN <= self.y + rhs.y <= i64::MAX,
            i64::MIN <= self.z + rhs.z <= i64::MAX,
        ensures
            r.x == self.x + rhs.x,
            r.y == self.y + rhs.y,
            r.z == self.z + rhs.z,
    {
        Vector { x: self.x + rhs.x, y: self.y + rhs.y, z: self.z + rhs.z }
    }

    /// Componentwise difference.
    pub fn sub(self, rhs: Vector) -> (r: Vector)
        requires
            i64::MIN <= self.x - rhs.x <= i64::MAX,
            i64::MIN <= self.y - rhs.y <= i64::MAX,
            i64::MIN <= self.z - rhs.z <= i64::MAX,
        ensures
            r.x == self.x - rhs.x,
            r.y == self.y - rhs.y,
            r.z == self.z - rhs.z,
    {
        Vector { x: self.x - rhs.x, y: self.y - rhs.y, z: self.z - rhs.z }
    }

    /// Componentwise negation.
    pub fn neg(self) -> (r: Vector)
        requires
            i64::MIN < self.x,
            i64::MIN < self.y,
            i64::MIN < self.z,
        ensures
            r.x == -self.x,
            r.y == -self.y,
            r.z == -self.z,
    {
        Vector { x: -self.x, y: -self.y, z: -self.z }
    }

    /// Scaling by a fixed-point factor `k` (so `k == SCALE` is the
    /// identity up to rounding).
    pub fn mul(self, k: i64) -> (r: Vector)
        requires
            self.bounded(4 * COORD_MAX as int),
            in_range(k as int, 2_000_000_000_000),
        ensures
            r.x == div_tz(self.x * k, SCALE as int),
            r.y == div_tz(self.y * k, SCALE as int),
            r.z == div_tz(self.z * k, SCALE as int),
    {
        proof {
            lemma_abs_mul_bound(self.x as int, k as int, 4 * COORD_MAX as int, 2_000_000_000_000);
            lemma_abs_mul_bound(self.y as int, k as int, 4 * COORD_MAX as int, 2_000_000_000_000);
            lemma_abs_mul_bound(self.z as int, k as int, 4 * COORD_MAX as int, 2_000_000_000_000);
            lemma_div_tz_bound(self.x as int * k as int, SCALE as int, 8_000_000_000_000_000_000_000);
            lemma_div_tz_bound(self.y as int * k as int, SCALE as int, 8_000_000_000_000_000_000_000);
            lemma_div_tz_bound(self.z as int * k as int, SCALE as int, 8_000_000_000_000_000_000_000);
        }
        Vector {
            x: div_trunc(mul_ww(self.x, k), SCALE as i128) as i64,
            y: div_trunc(mul_ww(self.y, k), SCALE as i128) as i64,
            z: div_trunc(mul_ww(self.z, k), SCALE as i128) as i64,
        }
    }

    /// Division by a fixed-point factor `k` (so `k == SCALE` is the
    /// identity up to rounding).
    pub fn div(self, k: i64) -> (r: Vector)
        requires
            self.bounded(4 * COORD_MAX as int),
            k != 0,
            i64::MIN < k,
        ensures
            k > 0 ==> r.x == div_tz(self.x * SCALE, k as int) && r.y == div_tz(
                self.y * SCALE,
                k as int,
            ) && r.z == div_tz(self.z * SCALE, k as int),
            k < 0 ==> r.x == -div_tz(self.x * SCALE, -k as int) && r.y == -div_tz(
                self.y * SCALE,
                -k as int,
            ) && r.z == -div_tz(self.z * SCALE, -k as int),
    {
        proof {
            lemma_abs_mul_bound(self.x as int, SCALE as int, 4 * COORD_MAX as int, SCALE as int);
            lemma_abs_mul_bound(self.y as int, SCALE as int, 4 * COORD_MAX as int, SCALE as int);
            lemma_abs_mul_bound(self.z as int, SCALE as int, 4 * COORD_MAX as int, SCALE as int);
            lemma_div_tz_bound(self.x as int * SCALE as int, if k > 0 { k as int } else { -(k as int) }, 4_000_000_000_000);
            lemma_div_tz_bound(self.y as int * SCALE as int, if k > 0 { k as int } else { -(k as int) }, 4_000_000_000_000);
            lemma_div_tz_bound(self.z as int * SCALE as int, if k > 0 { k as int } else { -(k as int) }, 4_000_000_000_000);
        }
        let d: i128 = if k > 0 {
            k as i128
        } else {
            -(k as i128)
        };
        let rx = div_trunc(mul_ww(self.x, SCALE), d) as i64;
        let ry = div_trunc(mul_ww(self.y, SCALE), d) as i64;
        let rz = div_trunc(mul_ww(self.z, SCALE), d) as i64;
        if k > 0 {
            Vector { x: rx, y: ry, z: rz }
        } else {
            Vector { x: -rx, y: -ry, z: -rz }
        }
    }

    /// The exact dot product of two component-bounded vectors.
    pub fn dot_product(v1: &Vector, v2: &Vector) -> (r: i128)
        requires
            v1.bounded(40_000_000_000),
            v2.bounded(9_000_000_000_000_000_000),
        ensures
            r == spec_dot(*v1, *v2),
    {
        proof {
            lemma_abs_mul_bound(v1.x as int, v2.x as int, 40_000_000_000, 9_000_000_000_000_000_000);
            lemma_abs_mul_bound(v1.y as int, v2.y as int, 40_000_000_000, 9_000_000_000_000_000_000);
            lemma_abs_mul_bound(v1.z as int, v2.z as int, 40_000_000_000, 9_000_000_000_000_000_000);
        }
        mul_ww(v1.x, v2.x) + mul_ww(v1.y, v2.y) + mul_ww(v1.z, v2.z)
    }

    /// The exact cross product of two component-bounded vectors.
    pub fn cross_product(v1: &Vector, v2: &Vector) -> (r: Vector)
        requires
            v1.bounded(9_000_000_000),
            v2.bounded(500_000_000),
        ensures
            r.x == cross_x(*v1, *v2),
            r.y == cross_y(*v1, *v2),
            r.z == cross_z(*v1, *v2),
            r.bounded(9_000_000_000_000_000_000),
    {
        proof {
            lemma_abs_mul_bound(v1.y as int, v2.z as int, 9_000_000_000, 500_000_000);
            lemma_abs_mul_bound(v1.z as int, v2.y as int, 9_000_000_000, 500_000_000);
            lemma_abs_mul_bound(v1.z as int, v2.x as int, 9_000_000_000, 500_000_000);
            lemma_abs_mul_bound(v1.x as int, v2.z as int, 9_000_000_000, 500_000_000);
            lemma_abs_mul_bound(v1.x as int, v2.y as int, 9_000_000_000, 500_000_000);
            lemma_abs_mul_bound(v1.y as int, v2.x as int, 9_000_000_000, 500_000_000);
        }
        Vector {
            x: (mul_ww(v1.y, v2.z) - mul_ww(v1.z, v2.y)) as i64,
            y: (mul_ww(v1.z, v2.x) - mul_ww(v1.x, v2.z)) as i64,
            z: (mul_ww(v1.x, v2.y) - mul_ww(v1.y, v2.x)) as i64,
        }
    }

    /// The euclidean norm, rounded down to the nearest raw step.
    pub fn norm(self) -> (r: i64)
        requires
            self.bounded(100_000_000_000_000_000),
        ensures
            r as int == sqrt_floor(self.norm2()),
            0 <= r < 200_000_000_000_000_000,
            r * r <= self.norm2(),
            (r + 1) * (r + 1) > self.norm2(),
    {
        proof {
            lemma_abs_mul_bound(self.x as int, self.x as int, 100_000_000_000_000_000, 100_000_000_000_000_000);
            lemma_abs_mul_bound(self.y as int, self.y as int, 100_000_000_000_000_000, 100_000_000_000_000_000);
            lemma_abs_mul_bound(self.z as int, self.z as int, 100_000_000_000_000_000, 100_000_000_000_000_000);
            assert(self.x as int * self.x as int >= 0) by (nonlinear_arith);
            assert(self.y as int * self.y as int >= 0) by (nonlinear_arith);
            assert(self.z as int * self.z as int >= 0) by (nonlinear_arith);
        }
        let n2: i128 = mul_ww(self.x, self.x) + mul_ww(self.y, self.y) + mul_ww(self.z, self.z);
        let r = isqrt(n2 as u128);
        proof {
            let ri = r as int;
            assert(ri < 200_000_000_000_000_000) by (nonlinear_arith)
                requires
                    0 <= ri,
                    ri * ri <= 30_000_000_000_000_000_000_000_000_000_000_000int,
            ;
            lemma_sqrt_floor_unique(self.norm2(), ri);
        }
        r as i64
    }

    /// Scale to unit length.  The input must not be the zero vector.
    pub fn normalize(self) -> (r: NormalVector)
        requires
            self.bounded(100_000_000_000_000_000),
            self.norm2() > 0,
        ensures
            r == nv_of(spec_normalize(self)),
            r.spec_vector() == spec_normalize(self),
            r.wf(),
    {
        let n = self.norm();
        proof {
            assert(n >= 1) by (nonlinear_arith)
                requires
                    (n + 1) * (n + 1) > self.norm2(),
                    self.norm2() > 0,
                    n >= 0,
            ;
            lemma_norm_dominates_components(self, n as int);
            lemma_normalize_in_unit_range(self.x as int, n as int);
            lemma_normalize_in_unit_range(self.y as int, n as int);
            lemma_normalize_in_unit_range(self.z as int, n as int);
        }
        let qx = div_trunc(mul_ww(self.x, SCALE), n as i128) as i64;
        let qy = div_trunc(mul_ww(self.y, SCALE), n as i128) as i64;
        let qz = div_trunc(mul_ww(self.z, SCALE), n as i128) as i64;
        proof {
            lemma_normalized_not_tiny(self, n as int, qx as int, qy as int, qz as int);
        }
        NormalVector(Vector { x: qx, y: qy, z: qz })
    }

    pub fn to_point(self) -> (r: Point)
        ensures
            r == Point(self.x, self.y, self.z),
    {
        Point(self.x, self.y, self.z)
    }
}

/// One scaled quotient against the norm, squared: it sits between
/// the exact scaled square and that square less twice a rounding step.
proof fn lemma_unit_comp_square(x: int, n: int, q: int)
    requires
        1 <= n,
        q == div_tz(x * SCALE, n),
    ensures
        ({
            let xa = if x >= 0 { x } else { -x };
            (n * n) * (q * q) <= (xa * 1000) * (xa * 1000) && (n * n) * (q * q) >= (xa * 1000) * (
            xa * 1000) - 2 * ((xa * 1000) * n)
        }),
{
    let xa = if x >= 0 { x } else { -x };
    let a = xa * SCALE as int;
    assert(a >= 0) by (nonlinear_arith)
        requires
            xa >= 0,
            a == xa * 1000,
    ;
    lemma_fundamental_div_mod(a, n);
    lemma_mod_division_less_than_divisor(a, n);
    vstd::arithmetic::div_mod::lemma_div_pos_is_pos(a, n);
    let u = a / n;
    assert(u * n <= a && u * n > a - n) by (nonlinear_arith)
        requires
            a == n * u + a % n,
            0 <= a % n < n,
    ;
    if x >= 0 {
        assert(q == u);
    } else {
        assert((-x) * SCALE as int == -(x * SCALE as int)) by (nonlinear_arith);
        assert(q == -u);
    }
    assert(q * q == u * u) by (nonlinear_arith)
        requires
            q == u || q == -u,
    ;
    assert((n * n) * (q * q) <= (xa * 1000) * (xa * 1000) && (n * n) * (q * q) >= (xa * 1000) * (
    xa * 1000) - 2 * ((xa * 1000) * n)) by (nonlinear_arith)
        requires
            0 <= u,
            0 <= a,
            1 <= n,
            u * n <= a,
            u * n > a - n,
            q * q == u * u,
            a == xa * 1000,
    ;
}

/// The normalization law: a vector of at least one unit of magnitude
/// normalizes to a vector whose length is one, up to three raw steps
/// either way.
pub proof fn lemma_normalize_unit(v: Vector)
    requires
        v.bounded(100_000_000_000_000_000),
        v.norm2() >= 1_000_000,
    ensures
        997 * 997 <= spec_normalize(v).norm2() <= 1001 * 1001,
{
    lemma_sqrt_floor_exists(v.norm2());
    let n = sqrt_floor(v.norm2());
    assert(n >= 1000) by (nonlinear_arith)
        requires
            (n + 1) * (n + 1) > v.norm2(),
            v.norm2() >= 1_000_000,
            n >= 0,
    ;
    lemma_norm_dominates_components(v, n);
    lemma_normalize_in_unit_range(v.x as int, n);
    lemma_normalize_in_unit_range(v.y as int, n);
    lemma_normalize_in_unit_range(v.z as int, n);
    let qx = div_tz(v.x as int * SCALE as int, n);
    let qy = div_tz(v.y as int * SCALE as int, n);
    let qz = div_tz(v.z as int * SCALE as int, n);
    let q = spec_normalize(v);
    assert(q.x as int == qx && q.y as int == qy && q.z as int == qz);
    lemma_unit_comp_square(v.x as int, n, qx);
    lemma_unit_comp_square(v.y as int, n, qy);
    lemma_unit_comp_square(v.z as int, n, qz);
    let xa = if v.x as int >= 0 { v.x as int } else { -(v.x as int) };
    let ya = if v.y as int >= 0 { v.y as int } else { -(v.y as int) };
    let za = if v.z as int >= 0 { v.z as int } else { -(v.z as int) };
    let m = xa + ya + za;
    assert(xa * xa == v.x as int * v.x as int && ya * ya == v.y as int * v.y as int && za * za
        == v.z as int * v.z as int) by (nonlinear_arith)
        requires
            xa == v.x as int || xa == -(v.x as int),
            ya == v.y as int || ya == -(v.y as int),
            za == v.z as int || za == -(v.z as int),
    ;
    assert(m * m <= 3 * v.norm2()) by (nonlinear_arith)
        requires
            xa * xa + ya * ya + za * za == v.norm2(),
            0 <= xa,
            0 <= ya,
            0 <= za,
            m == xa + ya + za,
    ;
    assert(m <= 2 * (n + 1)) by (nonlinear_arith)
        requires
            m * m <= 3 * v.norm2(),
            v.norm2() < (n + 1) * (n + 1),
            0 <= m,
            0 <= n,
    ;
    let s2 = q.norm2();
    assert(s2 == qx * qx + qy * qy + qz * qz);
    assert((n * n) * s2 <= 1_000_000 * v.norm2()) by (nonlinear_arith)
        requires
            s2 == qx * qx + qy * qy + qz * qz,
            (n * n) * (qx * qx) <= ((xa * 1000) * (xa * 1000)),
            (n * n) * (qy * qy) <= ((ya * 1000) * (ya * 1000)),
            (n * n) * (qz * qz) <= ((za * 1000) * (za * 1000)),
            xa * xa + ya * ya + za * za == v.norm2(),
    ;
    assert((n * n) * s2 >= 1_000_000 * v.norm2() - 2 * ((m * 1000) * n)) by (nonlinear_arith)
        requires
            s2 == qx * qx + qy * qy + qz * qz,
            (n * n) * (qx * qx) >= (xa * 1000) * (xa * 1000) - 2 * ((xa * 1000) * n),
            (n * n) * (qy * qy) >= (ya * 1000) * (ya * 1000) - 2 * ((ya * 1000) * n),
            (n * n) * (qz * qz) >= (za * 1000) * (za * 1000) - 2 * ((za * 1000) * n),
            xa * xa + ya * ya + za * za == v.norm2(),
            m == xa + ya + za,
    ;
    assert(s2 <= 1001 * 1001) by (nonlinear_arith)
        requires
            (n * n) * s2 <= 1_000_000 * v.norm2(),
            v.norm2() <= (n + 1) * (n + 1) - 1,
            n >= 1000,
    ;
    assert(s2 >= 997 * 997) by (nonlinear_arith)
        requires
            (n * n) * s2 >= 1_000_000 * v.norm2() - 2 * ((m * 1000) * n),
            v.norm2() >= n * n,
            m <= 2 * (n + 1),
            0 <= m,
            n >= 1000,
    ;
}

/// Each component is dominated by the norm: `|c| <= sqrt_floor(norm2)`.
proof fn lemma_norm_dominates_components(v: Vector, n: int)
    requires
        n >= 0,
        n * n <= v.norm2(),
        (n + 1) * (n + 1) > v.norm2(),
    ensures
        -n <= v.x as int <= n,
        -n <= v.y as int <= n,
        -n <= v.z as int <= n,
{
    assert(-n <= v.x as int <= n && -n <= v.y as int <= n && -n <= v.z as int <= n)
        by (nonlinear_arith)
        requires
            n >= 0,
            (n + 1) * (n + 1) > v.x as int * v.x as int + v.y as int * v.y as int + v.z as int
                * v.z as int,
    ;
}

/// A component scaled by `SCALE` and divided by a dominating norm stays
/// within `[-SCALE, SCALE]`.
proof fn lemma_normalize_in_unit_range(x: int, n: int)
    requires
        1 <= n,
        -n <= x <= n,
    ensures
        -(SCALE as int) <= div_tz(x * SCALE, n) <= SCALE as int,
{
    lemma_abs_mul_bound(x, SCALE as int, n, SCALE as int);
    lemma_div_tz_bound(x * SCALE, n, n * SCALE);
    lemma_div_multiples_vanish(SCALE as int, n);
    assert(n * SCALE == SCALE * n) by (nonlinear_arith);
}

/// The largest scaled component keeps the normalized vector's squared
/// norm at or above `(SCALE / 2)^2`.
proof fn lemma_normalized_not_tiny(v: Vector, n: int, qx: int, qy: int, qz: int)
    requires
        1 <= n,
        n * n <= v.norm2(),
        (n + 1) * (n + 1) > v.norm2(),
        qx == div_tz(v.x as int * SCALE, n),
        qy == div_tz(v.y as int * SCALE, n),
        qz == div_tz(v.z as int * SCALE, n),
    ensures
        qx * qx + qy * qy + qz * qz >= 250_000,
{
    let xx = v.x as int * v.x as int;
    let yy = v.y as int * v.y as int;
    let zz = v.z as int * v.z as int;
    assert(v.x as int * v.x as int >= 0) by (nonlinear_arith);
    assert(v.y as int * v.y as int >= 0) by (nonlinear_arith);
    assert(v.z as int * v.z as int >= 0) by (nonlinear_arith);
    assert(qx * qx >= 0) by (nonlinear_arith);
    assert(qy * qy >= 0) by (nonlinear_arith);
    assert(qz * qz >= 0) by (nonlinear_arith);
    if xx >= yy && xx >= zz {
        lemma_big_component_quotient(v.x as int, n, qx);
        assert(qx * qx + qy * qy + qz * qz >= 250_000) by (nonlinear_arith)
            requires
                qx * qx >= 250_000,
                qy * qy >= 0,
                qz * qz >= 0,
        ;
    } else if yy >= xx && yy >= zz {
        lemma_big_component_quotient(v.y as int, n, qy);
        assert(qx * qx + qy * qy + qz * qz >= 250_000) by (nonlinear_arith)
            requires
                qy * qy >= 250_000,
                qx * qx >= 0,
                qz * qz >= 0,
        ;
    } else {
        lemma_big_component_quotient(v.z as int, n, qz);
        assert(qx * qx + qy * qy + qz * qz >= 250_000) by (nonlinear_arith)
            requires
                qz * qz >= 250_000,
                qx * qx >= 0,
                qy * qy >= 0,
        ;
    }
}

/// If a component carries at least a third of the squared norm, its
/// scaled quotient is at least half of `SCALE` in magnitude.
proof fn lemma_big_component_quotient(x: int, n: int, q: int)
    requires
        1 <= n,
        n * n <= 3 * (x * x),
        q == div_tz(x * SCALE, n),
    ensures
        q * q >= 250_000,
{
    let xa = if x >= 0 { x } else { -x };
    assert(xa * xa == x * x) by (nonlinear_arith)
        requires
            xa == x || xa == -x,
    ;
    let a = xa * SCALE as int;
    assert(a >= 0) by (nonlinear_arith)
        requires
            xa >= 0,
            a == xa * 1000,
    ;
    lemma_fundamental_div_mod(a, n);
    lemma_mod_division_less_than_divisor(a, n);
    vstd::arithmetic::div_mod::lemma_div_pos_is_pos(a, n);
    let qa = a / n;
    assert(qa * n > a - n) by (nonlinear_arith)
        requires
            a == n * qa + a % n,
            0 <= a % n < n,
    ;
    assert(qa >= 500) by (nonlinear_arith)
        requires
            n >= 1,
            qa * n > xa * 1000 - n,
            n * n <= 3 * (xa * xa),
            xa >= 0,
            qa >= 0,
    ;
    if x >= 0 {
        assert(q == qa);
    } else {
        assert((-x) * SCALE as int == -(x * SCALE as int)) by (nonlinear_arith);
        assert(q == -qa);
    }
    assert(q * q >= 250_000) by (nonlinear_arith)
        requires
            q == qa || q == -qa,
            qa >= 500,
    ;
}

impl NormalVector {
    /// The underlying vector, for specifications.
    pub closed spec fn spec_vector(self) -> Vector {
        self.0
    }

    /// A unit direction: components within `SCALE`, squared norm at
    /// least `(SCALE / 2)^2`.
    pub open spec fn wf(self) -> bool {
        self.spec_vector().bounded(SCALE as int) && self.spec_vector().norm2() >= 250_000
    }

    /// The underlying vector.
    pub fn vector(&self) -> (r: Vector)
        ensures
            r == self.spec_vector(),
    {
        self.0
    }

    /// The exact dot product of two directions.
    pub fn dot_product(v1: &NormalVector, v2: &NormalVector) -> (r: i128)
        requires
            v1.wf(),
            v2.wf(),
        ensures
            r == spec_dot(v1.spec_vector(), v2.spec_vector()),
    {
        Vector::dot_product(&v1.0, &v2.0)
    }

    /// The opposite direction.
    pub fn neg(self) -> (r: NormalVector)
        requires
            self.wf(),
        ensures
            r == nv_of(
                Vector {
                    x: (-self.spec_vector().x) as i64,
                    y: (-self.spec_vector().y) as i64,
                    z: (-self.spec_vector().z) as i64,
                },
            ),
            r.spec_vector().x == -self.spec_vector().x,
            r.spec_vector().y == -self.spec_vector().y,
            r.spec_vector().z == -self.spec_vector().z,
            r.wf(),
    {
        proof {
            let v = self.0;
            assert((-v.x as int) * (-v.x as int) == v.x as int * v.x as int
                && (-v.y as int) * (-v.y as int) == v.y as int * v.y as int
                && (-v.z as int) * (-v.z as int) == v.z as int * v.z as int) by (nonlinear_arith);
        }
        NormalVector(Vector { x: -self.0.x, y: -self.0.y, z: -self.0.z })
    }
}

} // verus!
