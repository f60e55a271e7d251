//! The camera: a near-plane basis precomputed from the viewing
//! parameters, and the map from pixel coordinates to world positions.
//!
//! The per-pixel step vectors are kept at an extra factor of `SCALE`
//! so that sub-step precision survives until the final pixel position.

use vstd::prelude::*;
use crate::geometry::vector::in_range;
use crate::geometry::vector::spec_cross;
use crate::geometry::vector::spec_from;
use crate::geometry::vector::spec_normalize;
use crate::geometry::{NormalVector, Point, Vector};
use crate::num::SCALE;
use crate::num::div_trunc;
use crate::num::div_tz;
use crate::num::lemma_abs_mul_bound;
use crate::num::lemma_div_tz_bound;
use crate::num::mul_ii;
use crate::num::mul_ww;
use crate::trig::spec_tan_milli;
use crate::trig::tan_milli;
use vstd::arithmetic::div_mod::lemma_div_multiples_vanish;
use vstd::arithmetic::div_mod::lemma_div_pos_is_pos;
use vstd::arithmetic::div_mod::lemma_fundamental_div_mod;
use vstd::arithmetic::div_mod::lemma_mod_division_less_than_divisor;
use vstd::arithmetic::mul::lemma_mul_inequality;
use vstd::arithmetic::mul::lemma_mul_nonnegative;

verus! {

/// The magnitude of an integer.
pub open spec fn abs_i(x: int) -> int {
    if x >= 0 {
        x
    } else {
        -x
    }
}

/// The milliradian measure of a half field of view given in
/// thousandths of a degree.
pub open spec fn spec_half_mrad(fov: int) -> int {
    div_tz((fov / 2) * 174_533, 10_000_000)
}

/// The clamped fixed-point tangent used for the near-plane extent.
pub open spec fn spec_fov_tan(fov: int) -> int {
    let t = spec_tan_milli(spec_half_mrad(fov));
    if t < 1 {
        1
    } else if t > 12_000 {
        12_000
    } else {
        t
    }
}

/// A camera: position, viewing parameters, and the derived near-plane
/// basis.
pub struct Camera {
    pos: Point,
    center_of_view: Point,
    up: NormalVector,
    x_fov_angle: i64,
    y_fov_angle: i64,
    z_min: i64,
    height: usize,
    width: usize,
    top_left: Vector,
    vunit_x: Vector,
    vunit_y: Vector,
}

/// The sideways direction of the near plane: the up vector crossed
/// with the viewing direction, renormalized; a degenerate pairing
/// (up parallel to the view) falls back to a fixed axis.
pub open spec fn spec_cam_side(up: NormalVector, dir: Vector) -> Vector {
    let cr = spec_cross(up.spec_vector(), dir);
    if cr == (Vector { x: 0i64, y: 0i64, z: 0i64 }) {
        spec_normalize(Vector { x: 0i64, y: 0i64, z: SCALE })
    } else {
        spec_normalize(cr)
    }
}

impl Camera {
    pub closed spec fn spec_pos(self) -> Point {
        self.pos
    }

    pub closed spec fn spec_z_min(self) -> int {
        self.z_min as int
    }

    pub closed spec fn spec_height(self) -> int {
        self.height as int
    }

    pub closed spec fn spec_width(self) -> int {
        self.width as int
    }

    /// The camera position.
    pub fn pos(&self) -> (r: Point)
        ensures
            r == self.spec_pos(),
    {
        self.pos
    }

    /// The pixel grid height.
    pub fn height(&self) -> (r: usize)
        ensures
            r as int == self.spec_height(),
    {
        self.height
    }

    /// The pixel grid width.
    pub fn width(&self) -> (r: usize)
        ensures
            r as int == self.spec_width(),
    {
        self.width
    }

    pub closed spec fn spec_center_of_view(self) -> Point {
        self.center_of_view
    }

    pub closed spec fn spec_up(self) -> NormalVector {
        self.up
    }

    pub closed spec fn spec_x_fov(self) -> int {
        self.x_fov_angle as int
    }

    pub closed spec fn spec_y_fov(self) -> int {
        self.y_fov_angle as int
    }

    pub closed spec fn spec_top_left(self) -> Vector {
        self.top_left
    }

    pub closed spec fn spec_vunit_x(self) -> Vector {
        self.vunit_x
    }

    pub closed spec fn spec_vunit_y(self) -> Vector {
        self.vunit_y
    }

    /// The viewing parameters are in range and the derived basis is
    /// small enough that every pixel position stays a valid ray origin.
    pub open spec fn wf(self) -> bool {
        self.spec_pos().wf() && self.spec_center_of_view().wf() && self.spec_up().wf() && 0
            < self.spec_x_fov() <= 170_000 && 0 < self.spec_y_fov() <= 170_000 && 500
            <= self.spec_z_min() <= 10_000_000 && 1 <= self.spec_height() <= 10_000 && 1
            <= self.spec_width() <= 10_000 && spec_from(
            self.spec_pos(),
            self.spec_center_of_view(),
        ).norm2() > 0
            && self.spec_top_left().bounded(700_000_000) && abs_i(self.spec_vunit_x().x as int)
            * self.spec_height() <= 600_000_000_000 && abs_i(self.spec_vunit_x().y as int)
            * self.spec_height() <= 600_000_000_000 && abs_i(self.spec_vunit_x().z as int)
            * self.spec_height() <= 600_000_000_000 && abs_i(self.spec_vunit_y().x as int)
            * self.spec_width() <= 600_000_000_000 && abs_i(self.spec_vunit_y().y as int)
            * self.spec_width() <= 600_000_000_000 && abs_i(self.spec_vunit_y().z as int)
            * self.spec_width() <= 600_000_000_000
    }

    /// The stored basis is the one derived from the stored parameters.
    pub open spec fn spec_basis_ok(self) -> bool {
        let dir = spec_normalize(spec_from(self.spec_pos(), self.spec_center_of_view()));
        let side = spec_cam_side(self.spec_up(), dir);
        let uy = div_tz(2 * self.spec_z_min() * spec_fov_tan(self.spec_y_fov()), self.spec_width());
        let ux = div_tz(
            2 * self.spec_z_min() * spec_fov_tan(self.spec_x_fov()),
            self.spec_height(),
        );
        self.spec_vunit_y() == (Vector {
            x: div_tz(side.x * uy, SCALE as int) as i64,
            y: div_tz(side.y * uy, SCALE as int) as i64,
            z: div_tz(side.z * uy, SCALE as int) as i64,
        }) && self.spec_vunit_x() == (Vector {
            x: div_tz(self.spec_up().spec_vector().x * ux, SCALE as int) as i64,
            y: div_tz(self.spec_up().spec_vector().y * ux, SCALE as int) as i64,
            z: div_tz(self.spec_up().spec_vector().z * ux, SCALE as int) as i64,
        }) && self.spec_top_left() == (Vector {
            x: (self.spec_pos().0 + div_tz(dir.x * self.spec_z_min(), SCALE as int) + div_tz(
                self.spec_vunit_y().x * (self.spec_width() / 2),
                SCALE as int,
            ) + div_tz(self.spec_vunit_x().x * (self.spec_height() / 2), SCALE as int)) as i64,
            y: (self.spec_pos().1 + div_tz(dir.y * self.spec_z_min(), SCALE as int) + div_tz(
                self.spec_vunit_y().y * (self.spec_width() / 2),
                SCALE as int,
            ) + div_tz(self.spec_vunit_x().y * (self.spec_height() / 2), SCALE as int)) as i64,
            z: (self.spec_pos().2 + div_tz(dir.z * self.spec_z_min(), SCALE as int) + div_tz(
                self.spec_vunit_y().z * (self.spec_width() / 2),
                SCALE as int,
            ) + div_tz(self.spec_vunit_x().z * (self.spec_height() / 2), SCALE as int)) as i64,
        })
    }

    #[verifier::rlimit(60)]
    pub fn new(
        pos: Point,
        center_of_view: Point,
        up: NormalVector,
        x_fov_angle: i64,
        y_fov_angle: i64,
        z_min: i64,
        height: usize,
        width: usize,
    ) -> (r: Camera)
        requires
            pos.wf(),
            center_of_view.wf(),
            up.wf(),
            0 < x_fov_angle <= 170_000,
            0 < y_fov_angle <= 170_000,
            500 <= z_min <= 10_000_000,
            1 <= height <= 10_000,
            1 <= width <= 10_000,
            spec_from(pos, center_of_view).norm2() > 0,
        ensures
            r.wf(),
            r.spec_basis_ok(),
            r.spec_pos() == pos,
            r.spec_center_of_view() == center_of_view,
            r.spec_up() == up,
            r.spec_x_fov() == x_fov_angle,
            r.spec_y_fov() == y_fov_angle,
            r.spec_z_min() == z_min,
            r.spec_height() == height,
            r.spec_width() == width,
    {
        let dirn = Vector::from(pos, center_of_view).normalize();
        let dir = dirn.vector();
        let tx = Camera::fov_tan(x_fov_angle);
        let ty = Camera::fov_tan(y_fov_angle);
        proof {
            lemma_abs_mul_bound(2 * z_min as int, tx as int, 20_000_000, 12_000);
            lemma_abs_mul_bound(2 * z_min as int, ty as int, 20_000_000, 12_000);
            lemma_mul_nonnegative(2 * z_min as int, tx as int);
            lemma_mul_nonnegative(2 * z_min as int, ty as int);
            lemma_div_tz_bound(2 * z_min as int * tx as int, height as int, 240_000_000_000);
            lemma_div_tz_bound(2 * z_min as int * ty as int, width as int, 240_000_000_000);
            lemma_div_pos_is_pos(2 * z_min as int * tx as int, height as int);
            lemma_div_pos_is_pos(2 * z_min as int * ty as int, width as int);
        }
        let ux = div_trunc(2 * (z_min as i128) * (tx as i128), height as i128);
        let uy = div_trunc(2 * (z_min as i128) * (ty as i128), width as i128);
        let crv = Vector::cross_product(&up.vector(), &dir);
        proof {
            let uv = up.spec_vector();
            lemma_abs_mul_bound(uv.y as int, dir.z as int, 1000, 1000);
            lemma_abs_mul_bound(uv.z as int, dir.y as int, 1000, 1000);
            lemma_abs_mul_bound(uv.z as int, dir.x as int, 1000, 1000);
            lemma_abs_mul_bound(uv.x as int, dir.z as int, 1000, 1000);
            lemma_abs_mul_bound(uv.x as int, dir.y as int, 1000, 1000);
            lemma_abs_mul_bound(uv.y as int, dir.x as int, 1000, 1000);
        }
        let side: NormalVector = if crv.x == 0 && crv.y == 0 && crv.z == 0 {
            Vector::new(0, 0, SCALE).normalize()
        } else {
            proof {
                assert(crv.norm2() > 0) by (nonlinear_arith)
                    requires
                        crv.x != 0 || crv.y != 0 || crv.z != 0,
                        crv.norm2() == crv.x as int * crv.x as int + crv.y as int * crv.y as int
                            + crv.z as int * crv.z as int,
                ;
            }
            crv.normalize()
        };
        let sv = side.vector();
        let uv = up.vector();
        let vunit_y = Vector::new(
            Camera::step_component(sv.x, uy),
            Camera::step_component(sv.y, uy),
            Camera::step_component(sv.z, uy),
        );
        let vunit_x = Vector::new(
            Camera::step_component(uv.x, ux),
            Camera::step_component(uv.y, ux),
            Camera::step_component(uv.z, ux),
        );
        proof {
            lemma_step_products(vunit_y.x as int, uy as int, width as int);
            lemma_step_products(vunit_y.y as int, uy as int, width as int);
            lemma_step_products(vunit_y.z as int, uy as int, width as int);
            lemma_step_products(vunit_x.x as int, ux as int, height as int);
            lemma_step_products(vunit_x.y as int, ux as int, height as int);
            lemma_step_products(vunit_x.z as int, ux as int, height as int);
            lemma_qw_le_a(2 * z_min as int * ty as int, width as int);
            lemma_qw_le_a(2 * z_min as int * tx as int, height as int);
            lemma_abs_mul_bound(dir.x as int, z_min as int, 1000, 10_000_000);
            lemma_abs_mul_bound(dir.y as int, z_min as int, 1000, 10_000_000);
            lemma_abs_mul_bound(dir.z as int, z_min as int, 1000, 10_000_000);
            lemma_div_tz_bound(dir.x as int * z_min as int, SCALE as int, 10_000_000_000);
            lemma_div_tz_bound(dir.y as int * z_min as int, SCALE as int, 10_000_000_000);
            lemma_div_tz_bound(dir.z as int * z_min as int, SCALE as int, 10_000_000_000);
        }
        let vcx = div_trunc(mul_ww(dir.x, z_min), SCALE as i128) as i64;
        let vcy = div_trunc(mul_ww(dir.y, z_min), SCALE as i128) as i64;
        let vcz = div_trunc(mul_ww(dir.z, z_min), SCALE as i128) as i64;
        let hw = width / 2;
        let hh = height / 2;
        proof {
            lemma_half_span(vunit_y.x as int, width as int);
            lemma_half_span(vunit_y.y as int, width as int);
            lemma_half_span(vunit_y.z as int, width as int);
            lemma_half_span(vunit_x.x as int, height as int);
            lemma_half_span(vunit_x.y as int, height as int);
            lemma_half_span(vunit_x.z as int, height as int);
        }
        let top_left = Vector::new(
            pos.0 + vcx + div_trunc(mul_ww(vunit_y.x, hw as i64), SCALE as i128) as i64
                + div_trunc(mul_ww(vunit_x.x, hh as i64), SCALE as i128) as i64,
            pos.1 + vcy + div_trunc(mul_ww(vunit_y.y, hw as i64), SCALE as i128) as i64
                + div_trunc(mul_ww(vunit_x.y, hh as i64), SCALE as i128) as i64,
            pos.2 + vcz + div_trunc(mul_ww(vunit_y.z, hw as i64), SCALE as i128) as i64
                + div_trunc(mul_ww(vunit_x.z, hh as i64), SCALE as i128) as i64,
        );
        Camera {
            pos,
            center_of_view,
            up,
            x_fov_angle,
            y_fov_angle,
            z_min,
            height,
            width,
            top_left,
            vunit_x,
            vunit_y,
        }
    }

    /// The clamped tangent of half the given field of view.
    fn fov_tan(fov: i64) -> (r: i64)
        requires
            0 < fov <= 170_000,
        ensures
            r as int == spec_fov_tan(fov as int),
            1 <= r <= 12_000,
    {
        proof {
            lemma_div_tz_bound((fov as int / 2) * 174_533, 10_000_000, 14_900_000_000);
            lemma_div_pos_is_pos((fov as int / 2) * 174_533, 10_000_000);
        }
        let half = fov / 2;
        let mrad = div_trunc((half as i128) * 174_533, 10_000_000) as i64;
        let t = crate::trig::tan_milli(mrad);
        if t < 1 {
            1
        } else if t > 12_000 {
            12_000
        } else {
            t
        }
    }

    /// One component of a per-pixel step: a unit-direction component
    /// scaled by the step length.
    fn step_component(c: i64, u: i128) -> (r: i64)
        requires
            -1000 <= c <= 1000,
            0 <= u <= 240_000_000_000,
        ensures
            r as int == div_tz(c as int * u, SCALE as int),
            -u <= r as int <= u,
    {
        proof {
            lemma_abs_mul_bound(c as int, u as int, 1000, 240_000_000_000);
            lemma_step_in_unit(c as int, u as int);
        }
        div_trunc(mul_ii(c as i128, u), SCALE as i128) as i64
    }

    /// The exact pixel position, for specifications.
    pub open spec fn spec_pixel_pos(self, x: int, y: int) -> Point {
        Point(
            (self.spec_top_left().x - div_tz(self.spec_vunit_x().x * x, SCALE as int) - div_tz(
                self.spec_vunit_y().x * y,
                SCALE as int,
            )) as i64,
            (self.spec_top_left().y - div_tz(self.spec_vunit_x().y * x, SCALE as int) - div_tz(
                self.spec_vunit_y().y * y,
                SCALE as int,
            )) as i64,
            (self.spec_top_left().z - div_tz(self.spec_vunit_x().z * x, SCALE as int) - div_tz(
                self.spec_vunit_y().z * y,
                SCALE as int,
            )) as i64,
        )
    }

    /// The world position of the pixel at row `x`, column `y`.
    pub fn get_pixel_pos(&self, x: usize, y: usize) -> (r: Point)
        requires
            self.wf(),
            x < self.spec_height(),
            y < self.spec_width(),
        ensures
            r == self.spec_pixel_pos(x as int, y as int),
            r.0 as int == self.spec_top_left().x - div_tz(
                self.spec_vunit_x().x * x,
                SCALE as int,
            ) - div_tz(self.spec_vunit_y().x * y, SCALE as int),
            r.1 as int == self.spec_top_left().y - div_tz(
                self.spec_vunit_x().y * x,
                SCALE as int,
            ) - div_tz(self.spec_vunit_y().y * y, SCALE as int),
            r.2 as int == self.spec_top_left().z - div_tz(
                self.spec_vunit_x().z * x,
                SCALE as int,
            ) - div_tz(self.spec_vunit_y().z * y, SCALE as int),
            in_range(r.0 as int, 2_000_000_000),
            in_range(r.1 as int, 2_000_000_000),
            in_range(r.2 as int, 2_000_000_000),
    {
        proof {
            lemma_pixel_term(self.spec_vunit_x().x as int, x as int, self.spec_height());
            lemma_pixel_term(self.spec_vunit_x().y as int, x as int, self.spec_height());
            lemma_pixel_term(self.spec_vunit_x().z as int, x as int, self.spec_height());
            lemma_pixel_term(self.spec_vunit_y().x as int, y as int, self.spec_width());
            lemma_pixel_term(self.spec_vunit_y().y as int, y as int, self.spec_width());
            lemma_pixel_term(self.spec_vunit_y().z as int, y as int, self.spec_width());
        }
        let px = self.top_left.x - div_trunc(mul_ww(self.vunit_x.x, x as i64), SCALE as i128) as i64
            - div_trunc(mul_ww(self.vunit_y.x, y as i64), SCALE as i128) as i64;
        let py = self.top_left.y - div_trunc(mul_ww(self.vunit_x.y, x as i64), SCALE as i128) as i64
            - div_trunc(mul_ww(self.vunit_y.y, y as i64), SCALE as i128) as i64;
        let pz = self.top_left.z - div_trunc(mul_ww(self.vunit_x.z, x as i64), SCALE as i128) as i64
            - div_trunc(mul_ww(self.vunit_y.z, y as i64), SCALE as i128) as i64;
        Point(px, py, pz)
    }

    /// Move the camera and recompute the derived basis.
    pub fn move_to(&mut self, pos: Point)
        requires
            old(self).wf(),
            pos.wf(),
            spec_from(pos, old(self).spec_center_of_view()).norm2() > 0,
        ensures
            final(self).wf(),
            final(self).spec_basis_ok(),
            final(self).spec_pos() == pos,
            final(self).spec_center_of_view() == old(self).spec_center_of_view(),
            final(self).spec_height() == old(self).spec_height(),
            final(self).spec_width() == old(self).spec_width(),
    {
        *self = Camera::new(
            pos,
            self.center_of_view,
            self.up,
            self.x_fov_angle,
            self.y_fov_angle,
            self.z_min,
            self.height,
            self.width,
        );
    }
}

/// A step component against a nonnegative length stays within it.
proof fn lemma_step_in_unit(c: int, u: int)
    requires
        -1000 <= c <= 1000,
        0 <= u,
    ensures
        -u <= div_tz(c * u, 1000) <= u,
{
    lemma_abs_mul_bound(c, u, 1000, u);
    lemma_div_tz_bound(c * u, 1000, 1000 * u);
    lemma_div_multiples_vanish(u, 1000);
}

/// A step component times the pixel count stays within the span that
/// produced the step.
proof fn lemma_step_products(v: int, u: int, n: int)
    requires
        -u <= v <= u,
        0 <= u,
        1 <= n,
    ensures
        abs_i(v) * n <= u * n,
{
    lemma_mul_inequality(abs_i(v), u, n);
}

/// A truncating quotient times its divisor is at most the dividend.
proof fn lemma_qw_le_a(a: int, w: int)
    requires
        0 <= a,
        1 <= w,
    ensures
        div_tz(a, w) * w <= a,
        0 <= div_tz(a, w),
{
    lemma_fundamental_div_mod(a, w);
    lemma_mod_division_less_than_divisor(a, w);
    lemma_div_pos_is_pos(a, w);
    assert(w * (a / w) == (a / w) * w) by (nonlinear_arith);
}

/// A half-span term of the top-left corner stays within the span.
proof fn lemma_half_span(v: int, n: int)
    requires
        abs_i(v) * n <= 240_000_000_000,
        1 <= n <= 100_000,
    ensures
        -240_000_000_000 <= v * (n / 2) <= 240_000_000_000,
        -240_000_000 <= div_tz(v * (n / 2), 1000) <= 240_000_000,
{
    lemma_div_pos_is_pos(n, 2);
    vstd::arithmetic::div_mod::lemma_div_nonincreasing(n, 2);
    lemma_mul_inequality(n / 2, n, abs_i(v));
    assert(abs_i(v) * (n / 2) == (n / 2) * abs_i(v) && abs_i(v) * n == n * abs_i(v))
        by (nonlinear_arith);
    assert(-(abs_i(v) * (n / 2)) <= v * (n / 2) <= abs_i(v) * (n / 2)) by (nonlinear_arith)
        requires
            abs_i(v) == v || abs_i(v) == -v,
            0 <= n / 2,
    ;
    lemma_div_tz_bound(v * (n / 2), 1000, 240_000_000_000);
}

/// A per-pixel term of a pixel position stays within the span.
proof fn lemma_pixel_term(v: int, i: int, n: int)
    requires
        abs_i(v) * n <= 600_000_000_000,
        0 <= i < n,
        1 <= n <= 100_000,
    ensures
        -600_000_000_000 <= v * i <= 600_000_000_000,
        -600_000_000 <= div_tz(v * i, 1000) <= 600_000_000,
{
    lemma_mul_inequality(i, n, abs_i(v));
    assert(abs_i(v) * i == i * abs_i(v) && abs_i(v) * n == n * abs_i(v)) by (nonlinear_arith);
    assert(-(abs_i(v) * i) <= v * i <= abs_i(v) * i) by (nonlinear_arith)
        requires
            abs_i(v) == v || abs_i(v) == -v,
            0 <= i,
    ;
    lemma_div_tz_bound(v * i, 1000, 600_000_000_000);
}

} // verus!
