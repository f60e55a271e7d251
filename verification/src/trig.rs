//! Fixed-point inverse trigonometry for texture mapping.
//!
//! Angles are measured in milliradians: `3142` raw steps make a half
//! turn.  `atan_unit` uses a quadratic approximation of the arctangent
//! on `[0, 1]`; the octant reduction in `atan2_milli` extends it to the
//! whole plane, and `asin_milli` derives the arcsine from it.

use vstd::prelude::*;
use crate::num::div_trunc;
use crate::num::div_tz;
use crate::num::isqrt;
use crate::num::lemma_abs_mul_bound;
use crate::num::lemma_div_tz_bound;
use crate::num::mul_ww;

verus! {

/// Half a turn, in milliradians.
pub const PI_MILLI: i64 = 3142;

/// A quarter turn, in milliradians.
pub const HALF_PI_MILLI: i64 = 1571;

/// The approximated arctangent of `t / 1000` on `[0, 1]`, in
/// milliradians: `(pi/4) t + 0.273 t (1 - t)` in fixed point.
pub open spec fn spec_atan_unit(t: int) -> int {
    div_tz(785 * t, 1000) + div_tz(273 * t * (1000 - t), 1_000_000)
}

/// The octant-reduced arctangent of `y / x`, in milliradians, with
/// `atan2(0, 0) == 0` as the conventional degenerate result.
pub open spec fn spec_atan2_milli(y: int, x: int) -> int {
    let ya = if y >= 0 { y } else { -y };
    let xa = if x >= 0 { x } else { -x };
    if ya == 0 && xa == 0 {
        0
    } else {
        let base = if xa >= ya {
            spec_atan_unit(div_tz(ya * 1000, xa))
        } else {
            HALF_PI_MILLI - spec_atan_unit(div_tz(xa * 1000, ya))
        };
        let mag = if x >= 0 { base } else { PI_MILLI - base };
        if y >= 0 { mag } else { -mag }
    }
}

/// The arcsine of `x / 1000`, in milliradians, derived from the
/// arctangent and the complementary cosine.
pub open spec fn spec_asin_milli(x: int) -> int {
    spec_atan2_milli(x, crate::geometry::vector::sqrt_floor(1_000_000 - x * x))
}

/// Arctangent on the unit interval.
pub fn atan_unit(t: i64) -> (r: i64)
    requires
        0 <= t <= 1000,
    ensures
        r == spec_atan_unit(t as int),
        0 <= r <= 860,
{
    proof {
        lemma_abs_mul_bound(273 * t as int, 1000 - t as int, 273_000, 1_000);
        lemma_div_tz_bound(785 * t as int, 1000, 785_000);
        lemma_div_tz_bound(273 * t as int * (1000 - t as int), 1_000_000, 273_000_000);
        assert(273 * (t as int) * (1000 - t as int) == (273 * t as int) * (1000 - t as int));
    }
    let lin = div_trunc(785 * t as i128, 1000) as i64;
    let quad = div_trunc(273 * (t as i128) * (1000 - t as i128), 1_000_000) as i64;
    proof {
        lemma_atan_unit_range(t as int);
    }
    lin + quad
}

/// The two terms of the arctangent approximation stay within range.
proof fn lemma_atan_unit_range(t: int)
    requires
        0 <= t <= 1000,
    ensures
        0 <= div_tz(785 * t, 1000) <= 785,
        0 <= div_tz(273 * t * (1000 - t), 1_000_000) <= 75,
{
    lemma_div_tz_bound(785 * t, 1000, 785_000);
    vstd::arithmetic::div_mod::lemma_div_pos_is_pos(785 * t, 1000);
    assert(0 <= 273 * t * (1000 - t) <= 68_250_000) by (nonlinear_arith)
        requires
            0 <= t <= 1000,
    ;
    lemma_div_tz_bound(273 * t * (1000 - t), 1_000_000, 68_250_000);
    vstd::arithmetic::div_mod::lemma_div_pos_is_pos(273 * t * (1000 - t), 1_000_000);
}

/// The quadrant-aware arctangent, in milliradians.
pub fn atan2_milli(y: i64, x: i64) -> (r: i64)
    requires
        -6_000_000_000 <= y <= 6_000_000_000,
        -6_000_000_000 <= x <= 6_000_000_000,
    ensures
        r == spec_atan2_milli(y as int, x as int),
        -PI_MILLI <= r <= PI_MILLI,
{
    let ya: i64 = if y >= 0 {
        y
    } else {
        -y
    };
    let xa: i64 = if x >= 0 {
        x
    } else {
        -x
    };
    if ya == 0 && xa == 0 {
        return 0;
    }
    let base: i64 = if xa >= ya {
        proof {
            lemma_abs_mul_bound(ya as int, 1000, 6_000_000_000, 1000);
            lemma_ratio_in_unit(ya as int, xa as int);
        }
        atan_unit(div_trunc(mul_ww(ya, 1000), xa as i128) as i64)
    } else {
        proof {
            lemma_abs_mul_bound(xa as int, 1000, 6_000_000_000, 1000);
            lemma_ratio_in_unit(xa as int, ya as int);
        }
        HALF_PI_MILLI - atan_unit(div_trunc(mul_ww(xa, 1000), ya as i128) as i64)
    };
    let mag: i64 = if x >= 0 {
        base
    } else {
        PI_MILLI - base
    };
    if y >= 0 {
        mag
    } else {
        -mag
    }
}

/// A scaled ratio of a smaller by a larger magnitude lies in `[0, 1000]`.
proof fn lemma_ratio_in_unit(small: int, large: int)
    requires
        0 <= small <= large,
        1 <= large,
    ensures
        0 <= div_tz(small * 1000, large) <= 1000,
{
    vstd::arithmetic::div_mod::lemma_div_pos_is_pos(small * 1000, large);
    assert(small * 1000 <= large * 1000) by (nonlinear_arith)
        requires
            small <= large,
    ;
    vstd::arithmetic::div_mod::lemma_div_is_ordered(small * 1000, large * 1000, large);
    vstd::arithmetic::div_mod::lemma_div_multiples_vanish(1000, large);
    assert(large * 1000 == 1000 * large) by (nonlinear_arith);
}

/// The arcsine, in milliradians, for fixed-point inputs in `[-1, 1]`.
pub fn asin_milli(x: i64) -> (r: i64)
    requires
        -1000 <= x <= 1000,
    ensures
        r == spec_asin_milli(x as int),
        -HALF_PI_MILLI <= r <= HALF_PI_MILLI,
{
    proof {
        lemma_abs_mul_bound(x as int, x as int, 1000, 1000);
        assert(x as int * x as int >= 0) by (nonlinear_arith);
    }
    let c2: i64 = 1_000_000 - (x * x);
    let c = isqrt(c2 as u128) as i64;
    proof {
        let ci = c as int;
        assert(ci <= 1000) by (nonlinear_arith)
            requires
                0 <= ci,
                ci * ci <= 1_000_000,
        ;
        crate::geometry::vector::lemma_sqrt_floor_unique(c2 as int, ci);
    }
    let r = atan2_milli(x, c);
    proof {
        lemma_asin_range(x as int, c as int, r as int);
    }
    r
}

/// The arcsine path of `atan2` never leaves a quarter turn: with a
/// nonnegative second argument the magnitude is at most `HALF_PI_MILLI`.
proof fn lemma_asin_range(x: int, c: int, r: int)
    requires
        0 <= c,
        r == spec_atan2_milli(x, c),
    ensures
        -HALF_PI_MILLI <= r <= HALF_PI_MILLI,
{
    let ya = if x >= 0 { x } else { -x };
    if ya == 0 && c == 0 {
    } else {
        if c >= ya {
            lemma_ratio_in_unit(ya, c);
            lemma_atan_unit_bounds(div_tz(ya * 1000, c));
        } else {
            lemma_ratio_in_unit(c, ya);
            lemma_atan_unit_bounds(div_tz(c * 1000, ya));
        }
    }
}

/// The sine of `x` milliradians on `[0, HALF_PI_MILLI]`, at scale
/// 1000: the odd Taylor polynomial through the seventh power.
pub open spec fn spec_sin_milli(x: int) -> int {
    x - div_tz(x * x * x, 6_000_000) + div_tz(x * x * x * x * x, 120_000_000_000_000) - div_tz(
        x * x * x * x * x * x * x,
        5_040_000_000_000_000_000_000,
    )
}

/// The cosine as the sine of the complementary angle.
pub open spec fn spec_cos_milli(x: int) -> int {
    spec_sin_milli(HALF_PI_MILLI - x)
}

/// The tangent at scale 1000; when the cosine term rounds below one
/// (next to a quarter turn) a fixed steep slope stands in.
pub open spec fn spec_tan_milli(x: int) -> int {
    let c = spec_cos_milli(x);
    if c < 1 {
        12_000
    } else {
        div_tz(spec_sin_milli(x) * 1000, c)
    }
}

/// Sine on the first quadrant.
pub fn sin_milli(x: i64) -> (r: i64)
    requires
        0 <= x <= HALF_PI_MILLI,
    ensures
        r == spec_sin_milli(x as int),
        -700 <= r <= 1_700,
{
    proof {
        let z = x as int;
        lemma_abs_mul_bound(z, z, 1_571, 1_571);
        lemma_abs_mul_bound(z * z, z, 2_470_000, 1_571);
        lemma_abs_mul_bound(z * z * z, z, 3_890_000_000, 1_571);
        lemma_abs_mul_bound(z * z * z * z, z, 6_200_000_000_000, 1_571);
        lemma_abs_mul_bound(z * z * z * z * z, z, 9_800_000_000_000_000, 1_571);
        lemma_abs_mul_bound(z * z * z * z * z * z, z, 15_500_000_000_000_000_000, 1_571);
        lemma_sin_terms(z);
    }
    let xi = x as i128;
    let x3 = xi * xi * xi;
    let x5 = x3 * xi * xi;
    let x7 = x5 * xi * xi;
    let r = xi - div_trunc(x3, 6_000_000) + div_trunc(x5, 120_000_000_000_000) - div_trunc(
        x7,
        5_040_000_000_000_000_000_000,
    );
    r as i64
}

/// The Taylor terms of the sine stay within range on the first
/// quadrant.
proof fn lemma_sin_terms(x: int)
    requires
        0 <= x <= HALF_PI_MILLI,
    ensures
        0 <= x * x * x <= 4_000_000_000,
        0 <= x * x * x * x * x <= 10_000_000_000_000_000,
        0 <= x * x * x * x * x * x * x <= 25_000_000_000_000_000_000_000,
        0 <= div_tz(x * x * x, 6_000_000) <= 670,
        0 <= div_tz(x * x * x * x * x, 120_000_000_000_000) <= 84,
        0 <= div_tz(x * x * x * x * x * x * x, 5_040_000_000_000_000_000_000) <= 5,
{
    assert(0 <= x * x * x <= 4_000_000_000 && 0 <= x * x * x * x * x <= 10_000_000_000_000_000 && 0
        <= x * x * x * x * x * x * x <= 25_000_000_000_000_000_000_000) by (nonlinear_arith)
        requires
            0 <= x <= 1571,
    ;
    lemma_div_tz_bound(x * x * x, 6_000_000, 4_000_000_000);
    lemma_div_tz_bound(x * x * x * x * x, 120_000_000_000_000, 10_000_000_000_000_000);
    lemma_div_tz_bound(
        x * x * x * x * x * x * x,
        5_040_000_000_000_000_000_000,
        25_000_000_000_000_000_000_000,
    );
    vstd::arithmetic::div_mod::lemma_div_pos_is_pos(x * x * x, 6_000_000);
    vstd::arithmetic::div_mod::lemma_div_pos_is_pos(x * x * x * x * x, 120_000_000_000_000);
    vstd::arithmetic::div_mod::lemma_div_pos_is_pos(
        x * x * x * x * x * x * x,
        5_040_000_000_000_000_000_000,
    );
}

/// Cosine on the first quadrant.
pub fn cos_milli(x: i64) -> (r: i64)
    requires
        0 <= x <= HALF_PI_MILLI,
    ensures
        r == spec_cos_milli(x as int),
        -700 <= r <= 1_700,
{
    sin_milli(HALF_PI_MILLI - x)
}

/// Tangent on the first quadrant, at scale 1000.
pub fn tan_milli(x: i64) -> (r: i64)
    requires
        0 <= x <= HALF_PI_MILLI,
    ensures
        r == spec_tan_milli(x as int),
        -1_700_000 <= r <= 1_700_000,
{
    let s = sin_milli(x);
    let c = cos_milli(x);
    if c < 1 {
        12_000
    } else {
        proof {
            lemma_div_tz_bound(s as int * 1000, c as int, 1_700_000);
        }
        div_trunc(s as i128 * 1000, c as i128) as i64
    }
}

/// The arccosine, in milliradians: a quarter turn less the arcsine.
pub fn acos_milli(x: i64) -> (r: i64)
    requires
        -1000 <= x <= 1000,
    ensures
        r == HALF_PI_MILLI - spec_asin_milli(x as int),
        0 <= r <= PI_MILLI,
{
    HALF_PI_MILLI - asin_milli(x)
}

/// The unit arctangent stays within `[0, 860]`.
proof fn lemma_atan_unit_bounds(t: int)
    requires
        0 <= t <= 1000,
    ensures
        0 <= spec_atan_unit(t) <= 860,
{
    lemma_atan_unit_range(t);
}

} // verus!
