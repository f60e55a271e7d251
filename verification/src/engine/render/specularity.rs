//! The specular term: a glossy highlight from the cube of the cosine
//! between the light direction and the mirror direction.

use vstd::prelude::*;
use crate::geometry::Color;
use crate::geometry::NormalVector;
use crate::geometry::vector::lemma_dot_bound;
use crate::geometry::vector::spec_dot;
use crate::num::div_trunc;
use crate::num::div_tz;
use crate::num::lemma_abs_mul_bound;
use crate::num::lemma_div_tz_bound;
use crate::num::mul_ii;

verus! {

/// The grey intensity of the highlight: the specular coefficient times
/// the cubed cosine times the mean light intensity times the channel
/// maximum, with all scale factors divided out at the end.
pub open spec fn spec_spec_intensity(reflection: int, dot: int, mean: int) -> int {
    let v = div_tz(reflection * (dot * dot * dot) * mean * 255, 1_000_000_000_000_000_000_000_000);
    if v < 0 {
        0
    } else if v > 255 {
        255
    } else {
        v
    }
}

/// The mean of the three intensity channels, each divided by three
/// first, as the reference arithmetic does.
pub open spec fn spec_mean(l: (int, int, int)) -> int {
    div_tz(l.0, 3) + div_tz(l.1, 3) + div_tz(l.2, 3)
}

/// The exact specular term: black when the mirror direction points
/// away from the light.
pub open spec fn spec_process(
    light_vector: NormalVector,
    light_intensity: (int, int, int),
    reflection: int,
    reflected: NormalVector,
) -> Color {
    let dot = spec_dot(light_vector.spec_vector(), reflected.spec_vector());
    if dot < 0 {
        Color(0u8, 0u8, 0u8)
    } else {
        let i = spec_spec_intensity(reflection, dot, spec_mean(light_intensity));
        Color(i as u8, i as u8, i as u8)
    }
}

/// The specular contribution of one light.
pub fn process(
    light_vector: NormalVector,
    light_intensity: (i64, i64, i64),
    reflection: i64,
    reflected: NormalVector,
) -> (r: Color)
    requires
        light_vector.wf(),
        reflected.wf(),
        0 <= light_intensity.0 <= 10_000,
        0 <= light_intensity.1 <= 10_000,
        0 <= light_intensity.2 <= 10_000,
        0 <= reflection <= 10_000,
    ensures
        r == spec_process(
            light_vector,
            (light_intensity.0 as int, light_intensity.1 as int, light_intensity.2 as int),
            reflection as int,
            reflected,
        ),
{
    proof {
        lemma_div_tz_bound(light_intensity.0 as int, 3, 10_000);
        lemma_div_tz_bound(light_intensity.1 as int, 3, 10_000);
        lemma_div_tz_bound(light_intensity.2 as int, 3, 10_000);
    }
    let mean = div_trunc(light_intensity.0 as i128, 3) as i64 + div_trunc(
        light_intensity.1 as i128,
        3,
    ) as i64 + div_trunc(light_intensity.2 as i128, 3) as i64;
    let dot = NormalVector::dot_product(&light_vector, &reflected);
    proof {
        lemma_dot_bound(light_vector.spec_vector(), reflected.spec_vector(), 1000, 1000);
    }
    if dot < 0 {
        return Color(0, 0, 0);
    }
    proof {
        let d = spec_dot(light_vector.spec_vector(), reflected.spec_vector());
        lemma_abs_mul_bound(d, d, 3_000_000, 3_000_000);
        lemma_abs_mul_bound(d * d, d, 9_000_000_000_000, 3_000_000);
        lemma_abs_mul_bound(reflection as int, d * d * d, 10_000, 27_000_000_000_000_000_000);
        lemma_abs_mul_bound(
            reflection as int * (d * d * d),
            mean as int,
            270_000_000_000_000_000_000_000,
            10_000,
        );
        lemma_abs_mul_bound(
            reflection as int * (d * d * d) * mean as int,
            255,
            2_700_000_000_000_000_000_000_000_000,
            255,
        );
        lemma_div_tz_bound(
            reflection as int * (d * d * d) * mean as int * 255,
            1_000_000_000_000_000_000_000_000,
            688_500_000_000_000_000_000_000_000_000,
        );
    }
    let d3 = mul_ii(mul_ii(dot, dot), dot);
    let p1 = (reflection as i128) * d3;
    let p2 = p1 * (mean as i128);
    let p3 = p2 * 255;
    let v = div_trunc(p3, 1_000_000_000_000_000_000_000_000);
    let i: u8 = if v < 0 {
        0
    } else if v > 255 {
        255
    } else {
        v as u8
    };
    Color(i, i, i)
}

} // verus!
