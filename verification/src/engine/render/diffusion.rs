//! The diffuse term: intensity proportional to the cosine between the
//! surface normal and the light direction.

use vstd::prelude::*;
use crate::geometry::Color;
use crate::geometry::NormalVector;
use crate::geometry::vector::lemma_dot_bound;
use crate::geometry::vector::spec_dot;
use crate::num::div_trunc;
use crate::num::div_tz;
use crate::num::lemma_abs_mul_bound;
use crate::num::lemma_div_tz_bound;
use crate::num::mul_ii;

verus! {

/// One diffuse channel: the diffuse factor times the cosine times the
/// light intensity, all fixed point, truncated into a channel value.
/// `proportion` carries two scale factors, so the divisor is the
/// fourth power of the scale.
pub open spec fn spec_diffuse_channel(k: int, proportion: int, l: int) -> int {
    let v = div_tz(k * proportion * l, 1_000_000_000_000);
    if v < 0 {
        0
    } else if v > 255 {
        255
    } else {
        v
    }
}

/// The exact diffuse term: black when the light is behind the face.
pub open spec fn spec_process(
    light_vector: NormalVector,
    light_intensity: (int, int, int),
    diffusion: (int, int, int),
    normal: NormalVector,
) -> Color {
    let proportion = spec_dot(normal.spec_vector(), light_vector.spec_vector());
    if proportion < 0 {
        Color(0u8, 0u8, 0u8)
    } else {
        Color(
            spec_diffuse_channel(diffusion.0, proportion, light_intensity.0) as u8,
            spec_diffuse_channel(diffusion.1, proportion, light_intensity.1) as u8,
            spec_diffuse_channel(diffusion.2, proportion, light_intensity.2) as u8,
        )
    }
}

/// One channel, executed.
fn diffuse_channel(k: i64, proportion: i128, l: i64) -> (r: u8)
    requires
        0 <= k <= 2_550_000,
        0 <= proportion <= 3_000_000,
        0 <= l <= 10_000,
    ensures
        r as int == spec_diffuse_channel(k as int, proportion as int, l as int),
{
    proof {
        lemma_abs_mul_bound(k as int, proportion as int, 2_550_000, 3_000_000);
        lemma_abs_mul_bound(
            k as int * proportion as int,
            l as int,
            7_650_000_000_000,
            10_000,
        );
        lemma_div_tz_bound(
            k as int * proportion as int * l as int,
            1_000_000_000_000,
            76_500_000_000_000_000,
        );
    }
    let p1 = mul_ii(k as i128, proportion);
    let p2 = mul_ii(p1, l as i128);
    let v = div_trunc(p2, 1_000_000_000_000);
    if v < 0 {
        0
    } else if v > 255 {
        255
    } else {
        v as u8
    }
}

/// The diffuse contribution of one light.
pub fn process(
    light_vector: NormalVector,
    light_intensity: (i64, i64, i64),
    diffusion: (i64, i64, i64),
    normal: NormalVector,
) -> (r: Color)
    requires
        light_vector.wf(),
        normal.wf(),
        0 <= light_intensity.0 <= 10_000,
        0 <= light_intensity.1 <= 10_000,
        0 <= light_intensity.2 <= 10_000,
        0 <= diffusion.0 <= 2_550_000,
        0 <= diffusion.1 <= 2_550_000,
        0 <= diffusion.2 <= 2_550_000,
    ensures
        r == spec_process(
            light_vector,
            (light_intensity.0 as int, light_intensity.1 as int, light_intensity.2 as int),
            (diffusion.0 as int, diffusion.1 as int, diffusion.2 as int),
            normal,
        ),
{
    let proportion = NormalVector::dot_product(&normal, &light_vector);
    proof {
        lemma_dot_bound(normal.spec_vector(), light_vector.spec_vector(), 1000, 1000);
    }
    if proportion < 0 {
        return Color(0, 0, 0);
    }
    Color(
        diffuse_channel(diffusion.0, proportion, light_intensity.0),
        diffuse_channel(diffusion.1, proportion, light_intensity.1),
        diffuse_channel(diffusion.2, proportion, light_intensity.2),
    )
}

} // verus!
