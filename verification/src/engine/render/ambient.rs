//! The ambient term: constant background illumination, unaffected by
//! geometry or shadows.

use vstd::prelude::*;
use crate::geometry::Color;
use crate::num::div_trunc;
use crate::num::div_tz;
use crate::num::lemma_abs_mul_bound;
use crate::num::lemma_div_tz_bound;
use crate::num::mul_ii;

verus! {

/// One ambient channel: light intensity times ambient constant times
/// the diffuse factor, with the scale factors divided out.
pub open spec fn spec_ambient_channel(l: int, a: int, k: int) -> int {
    let v = div_tz(l * a * k, 1_000_000_000);
    if v < 0 {
        0
    } else if v > 255 {
        255
    } else {
        v
    }
}

/// The exact ambient term.
pub open spec fn spec_process(
    light_intensity: (int, int, int),
    ambient_light: (int, int, int),
    diffusion: (int, int, int),
) -> Color {
    Color(
        spec_ambient_channel(light_intensity.0, ambient_light.0, diffusion.0) as u8,
        spec_ambient_channel(light_intensity.1, ambient_light.1, diffusion.1) as u8,
        spec_ambient_channel(light_intensity.2, ambient_light.2, diffusion.2) as u8,
    )
}

/// One channel, executed.
fn ambient_channel(l: i64, a: i64, k: i64) -> (r: u8)
    requires
        0 <= l <= 10_000,
        0 <= a <= 10_000,
        0 <= k <= 2_550_000,
    ensures
        r as int == spec_ambient_channel(l as int, a as int, k as int),
{
    proof {
        lemma_abs_mul_bound(l as int, a as int, 10_000, 10_000);
        lemma_abs_mul_bound(l as int * a as int, k as int, 100_000_000, 2_550_000);
        lemma_div_tz_bound(l as int * a as int * k as int, 1_000_000_000, 255_000_000_000_000);
    }
    let p = mul_ii(mul_ii(l as i128, a as i128), k as i128);
    let v = div_trunc(p, 1_000_000_000);
    if v < 0 {
        0
    } else if v > 255 {
        255
    } else {
        v as u8
    }
}

/// The ambient contribution of one light.
pub fn process(
    light_intensity: (i64, i64, i64),
    ambient_light: (i64, i64, i64),
    diffusion: (i64, i64, i64),
) -> (r: Color)
    requires
        0 <= light_intensity.0 <= 10_000,
        0 <= light_intensity.1 <= 10_000,
        0 <= light_intensity.2 <= 10_000,
        0 <= ambient_light.0 <= 10_000,
        0 <= ambient_light.1 <= 10_000,
        0 <= ambient_light.2 <= 10_000,
        0 <= diffusion.0 <= 2_550_000,
        0 <= diffusion.1 <= 2_550_000,
        0 <= diffusion.2 <= 2_550_000,
    ensures
        r == spec_process(
            (light_intensity.0 as int, light_intensity.1 as int, light_intensity.2 as int),
            (ambient_light.0 as int, ambient_light.1 as int, ambient_light.2 as int),
            (diffusion.0 as int, diffusion.1 as int, diffusion.2 as int),
        ),
{
    Color(
        ambient_channel(light_intensity.0, ambient_light.0, diffusion.0),
        ambient_channel(light_intensity.1, ambient_light.1, diffusion.1),
        ambient_channel(light_intensity.2, ambient_light.2, diffusion.2),
    )
}

} // verus!
