//! The intersect (debug) term: the raw diffuse color, no lighting.

use vstd::prelude::*;
use crate::geometry::Color;
use crate::num::SCALE;
use crate::num::div_tz;
use crate::num::div_trunc;
use crate::num::lemma_div_tz_bound;

verus! {

/// A fixed-point intensity truncated into an 8-bit channel, clamping
/// at the channel bounds.
pub open spec fn to_channel(v: int) -> int {
    let q = div_tz(v, SCALE as int);
    if q < 0 {
        0
    } else if q > 255 {
        255
    } else {
        q
    }
}

/// Truncate one fixed-point intensity into a channel.
pub fn channel_of(v: i64) -> (r: u8)
    requires
        -1_000_000_000_000_000_000 <= v <= 1_000_000_000_000_000_000,
    ensures
        r as int == to_channel(v as int),
{
    proof {
        lemma_div_tz_bound(v as int, SCALE as int, 1_000_000_000_000_000_000);
    }
    let q = div_trunc(v as i128, SCALE as i128);
    if q < 0 {
        0
    } else if q > 255 {
        255
    } else {
        q as u8
    }
}

/// The exact intersect term.
pub open spec fn spec_process(diffusion: (int, int, int)) -> Color {
    Color(
        to_channel(diffusion.0) as u8,
        to_channel(diffusion.1) as u8,
        to_channel(diffusion.2) as u8,
    )
}

/// The raw diffuse factors as a color, ignoring all lighting.
pub fn process(diffusion: (i64, i64, i64)) -> (r: Color)
    requires
        0 <= diffusion.0 <= 2_550_000,
        0 <= diffusion.1 <= 2_550_000,
        0 <= diffusion.2 <= 2_550_000,
    ensures
        r == spec_process((diffusion.0 as int, diffusion.1 as int, diffusion.2 as int)),
{
    Color(channel_of(diffusion.0), channel_of(diffusion.1), channel_of(diffusion.2))
}

} // verus!
