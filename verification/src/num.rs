//! Exact integer arithmetic for the fixed-point world.
//!
//! Coordinates, directions and colors are scaled integers: one unit is
//! `SCALE` raw steps.  The helpers here give widening multiplication,
//! truncating signed division and an integer square root, each with an
//! exact contract, so that the geometry code never overflows and its
//! results are pinned down to the last raw step.

use vstd::prelude::*;
use vstd::arithmetic::div_mod::lemma_div_is_ordered;
use vstd::arithmetic::div_mod::lemma_div_nonincreasing;
use vstd::arithmetic::div_mod::lemma_div_pos_is_pos;

verus! {

/// Raw steps per world unit.
pub const SCALE: i64 = 1000;

/// Largest magnitude a scene coordinate may have: a hundred thousand units.
pub const COORD_MAX: i64 = 100_000_000;

/// Largest magnitude a ray origin may reach while bouncing through a
/// well-formed scene.
pub const PT_MAX: i64 = 7_100_000_000;

/// Largest intersection distance a primitive reports; anything farther
/// is treated as a miss (a far plane well outside the scene).
pub const DIST_MAX: i64 = 2_000_000_000;

/// Quotient of `a` by `b` rounded toward zero (the rounding that `/`
/// performs on machine integers), defined for positive `b`.
pub open spec fn div_tz(a: int, b: int) -> int {
    if a >= 0 {
        a / b
    } else {
        -((-a) / b)
    }
}

/// A product is bounded by the product of the factors' bounds.
pub proof fn lemma_abs_mul_bound(a: int, b: int, aa: int, bb: int)
    by (nonlinear_arith)
    requires
        -aa <= a <= aa,
        -bb <= b <= bb,
    ensures
        -(aa * bb) <= a * b <= aa * bb,
{
}

/// Widening product of two machine words; never overflows.
pub fn mul_ww(a: i64, b: i64) -> (r: i128)
    ensures
        r == a as int * b as int,
{
    proof {
        lemma_abs_mul_bound(a as int, b as int, 0x8000_0000_0000_0000, 0x8000_0000_0000_0000);
    }
    (a as i128) * (b as i128)
}

/// Product of two wide integers whose magnitudes stay under `10^19`;
/// such a product always fits.
pub fn mul_ii(a: i128, b: i128) -> (r: i128)
    requires
        -10_000_000_000_000_000_000 <= a <= 10_000_000_000_000_000_000,
        -10_000_000_000_000_000_000 <= b <= 10_000_000_000_000_000_000,
    ensures
        r == a as int * b as int,
{
    proof {
        lemma_abs_mul_bound(
            a as int,
            b as int,
            10_000_000_000_000_000_000,
            10_000_000_000_000_000_000,
        );
    }
    a * b
}

/// Truncating division: the quotient of `a` by the positive `b`,
/// rounded toward zero.
pub fn div_trunc(a: i128, b: i128) -> (q: i128)
    requires
        0 < b,
        i128::MIN < a,
    ensures
        q == div_tz(a as int, b as int),
{
    if a >= 0 {
        let q0 = (a as u128) / (b as u128);
        proof {
            lemma_div_pos_is_pos(a as int, b as int);
            lemma_div_nonincreasing(a as int, b as int);
        }
        q0 as i128
    } else {
        let q0 = ((-a) as u128) / (b as u128);
        proof {
            lemma_div_pos_is_pos(-(a as int), b as int);
            lemma_div_nonincreasing(-(a as int), b as int);
        }
        -(q0 as i128)
    }
}

/// A truncating quotient is bounded by the quotient of the bounds.
pub proof fn lemma_div_tz_bound(a: int, b: int, m: int)
    requires
        0 < b,
        -m <= a <= m,
    ensures
        -(m / b) <= div_tz(a, b) <= m / b,
{
    lemma_div_pos_is_pos(m, b);
    if a >= 0 {
        lemma_div_pos_is_pos(a, b);
        lemma_div_is_ordered(a, m, b);
    } else {
        lemma_div_pos_is_pos(-a, b);
        lemma_div_is_ordered(-a, m, b);
    }
}

/// Integer square root: the largest `r` with `r * r <= n`.
pub fn isqrt(n: u128) -> (r: u128)
    requires
        n < 0x4000_0000_0000_0000_0000_0000_0000_0000,
    ensures
        r * r <= n,
        (r + 1) * (r + 1) > n,
        r < 0x8000_0000_0000_0000,
{
    let mut lo: u128 = 0;
    let mut hi: u128 = 0x8000_0000_0000_0000;
    proof {
        assert((0x8000_0000_0000_0000 as int) * (0x8000_0000_0000_0000 as int)
            == 0x4000_0000_0000_0000_0000_0000_0000_0000) by (nonlinear_arith);
    }
    while hi - lo > 1
        invariant
            lo < hi,
            hi <= 0x8000_0000_0000_0000,
            lo * lo <= n,
            hi * hi > n,
        decreases hi - lo,
    {
        let mid = lo + (hi - lo) / 2;
        proof {
            lemma_abs_mul_bound(mid as int, mid as int, 0x8000_0000_0000_0000, 0x8000_0000_0000_0000);
            assert((0x8000_0000_0000_0000 as int) * (0x8000_0000_0000_0000 as int)
                == 0x4000_0000_0000_0000_0000_0000_0000_0000) by (nonlinear_arith);
        }
        let m2 = mid * mid;
        if m2 <= n {
            lo = mid;
        } else {
            hi = mid;
        }
    }
    lo
}

} // verus!
