//! Colors with three 8-bit channels and saturating addition.

use vstd::prelude::*;

verus! {

/// An RGB color; addition of two colors saturates per channel at 255,
/// modelling additive accumulation of light.
#[derive(Clone, Copy, Debug, PartialEq, Eq, Structural)]
pub struct Color(pub u8, pub u8, pub u8);

/// One saturating channel: the sum of the channels, capped at 255.
pub fn add_color(a: u8, b: u8) -> (r: u8)
    ensures
        r == if a + b <= 255 { a + b } else { 255int },
{
    let wide: u16 = a as u16 + b as u16;
    if wide > 255 {
        u8::MAX
    } else {
        wide as u8
    }
}

/// The saturating sum of two colors, channel by channel.
pub open spec fn spec_color_add(a: Color, b: Color) -> Color {
    Color(
        spec_sat(a.0 as int, b.0 as int) as u8,
        spec_sat(a.1 as int, b.1 as int) as u8,
        spec_sat(a.2 as int, b.2 as int) as u8,
    )
}

impl Color {
    /// Saturating addition: each channel of the result is
    /// `min(255, lhs.channel + rhs.channel)`.
    pub fn add(self, rhs: Color) -> (r: Color)
        ensures
            r == spec_color_add(self, rhs),
            r.0 == if self.0 + rhs.0 <= 255 { self.0 + rhs.0 } else { 255int },
            r.1 == if self.1 + rhs.1 <= 255 { self.1 + rhs.1 } else { 255int },
            r.2 == if self.2 + rhs.2 <= 255 { self.2 + rhs.2 } else { 255int },
    {
        Color(
            add_color(self.0, rhs.0),
            add_color(self.1, rhs.1),
            add_color(self.2, rhs.2),
        )
    }
}

/// The saturated sum of two channel values.
pub open spec fn spec_sat(a: int, b: int) -> int {
    if a + b <= 255 {
        a + b
    } else {
        255
    }
}

/// Whether `r` is the saturating sum of `a` and `b`.
pub open spec fn color_sum(a: Color, b: Color, r: Color) -> bool {
    r.0 == spec_sat(a.0 as int, b.0 as int) && r.1 == spec_sat(a.1 as int, b.1 as int) && r.2
        == spec_sat(a.2 as int, b.2 as int)
}

} // verus!
