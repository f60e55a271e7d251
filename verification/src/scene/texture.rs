//! Materials: a uniform color, or a lookup into a decoded image.
//!
//! Diffuse intensities are fixed-point values at scale `SCALE`, so a
//! fully lit channel is `255 * SCALE`.

use vstd::prelude::*;
use crate::geometry::Color;
use crate::geometry::vector::in_range;
use crate::image::Image;
use crate::num::SCALE;
use crate::num::div_trunc;
use crate::num::div_tz;
use crate::num::lemma_div_tz_bound;
use crate::num::mul_ww;

verus! {

/// A constant material: one color, a diffuse factor and a specular
/// coefficient, both fixed-point.
#[derive(Clone)]
pub struct UniformTexture {
    color: Color,
    diff: i64,
    refl: i64,
}

/// A material that samples a decoded raster by texture coordinates.
/// The raster itself is decoded outside the renderer and handed in as
/// plain pixels.
#[derive(Clone)]
pub struct UVMapTexture {
    buffer: Image,
    diff: i64,
    refl: i64,
}

/// The materials a primitive can carry.
#[derive(Clone)]
pub enum Texture {
    Uniform(UniformTexture),
    UVMap(UVMapTexture),
}

impl UniformTexture {
    pub closed spec fn spec_color(self) -> Color {
        self.color
    }

    pub closed spec fn spec_diff(self) -> int {
        self.diff as int
    }

    pub closed spec fn spec_refl(self) -> int {
        self.refl as int
    }

    /// Coefficients stay within ten full units.
    pub open spec fn wf(self) -> bool {
        0 <= self.spec_diff() <= 10 * SCALE && 0 <= self.spec_refl() <= 10 * SCALE
    }

    pub fn new(color: Color, diff: i64, refl: i64) -> (r: UniformTexture)
        requires
            0 <= diff <= 10 * SCALE,
            0 <= refl <= 10 * SCALE,
        ensures
            r.wf(),
            r.spec_color() == color,
            r.spec_diff() == diff,
            r.spec_refl() == refl,
    {
        UniformTexture { color, diff, refl }
    }
}

impl UVMapTexture {
    pub closed spec fn spec_buffer(self) -> Image {
        self.buffer
    }

    pub closed spec fn spec_diff(self) -> int {
        self.diff as int
    }

    pub closed spec fn spec_refl(self) -> int {
        self.refl as int
    }

    /// A nonempty raster of bounded size, and bounded coefficients.
    pub open spec fn wf(self) -> bool {
        self.spec_buffer().wf() && 1 <= self.spec_buffer().spec_height() <= 100_000 && 1
            <= self.spec_buffer().spec_width() <= 100_000 && 0 <= self.spec_diff() <= 10 * SCALE
            && 0 <= self.spec_refl() <= 10 * SCALE
    }

    /// Wrap an already decoded raster.
    pub fn new(buffer: Image, diff: i64, refl: i64) -> (r: UVMapTexture)
        requires
            buffer.wf(),
            1 <= buffer.spec_height() <= 100_000,
            1 <= buffer.spec_width() <= 100_000,
            0 <= diff <= 10 * SCALE,
            0 <= refl <= 10 * SCALE,
        ensures
            r.wf(),
            r.spec_buffer() == buffer,
            r.spec_diff() == diff,
            r.spec_refl() == refl,
    {
        UVMapTexture { buffer, diff, refl }
    }
}

/// A texture coordinate scaled to a pixel index and clamped to the
/// raster's border.
pub open spec fn spec_uv_index(c: int, extent: int) -> int {
    let i = div_tz(c * extent, SCALE as int);
    if i < 0 {
        0
    } else if i > extent - 1 {
        extent - 1
    } else {
        i
    }
}

/// Scale a coordinate in `[0, SCALE]` (clamping outside values) to an
/// index into `0 .. extent`.
fn uv_index(c: i64, extent: usize) -> (r: usize)
    requires
        in_range(c as int, 100_000_000_000_000),
        1 <= extent <= 100_000,
    ensures
        r == spec_uv_index(c as int, extent as int),
        r < extent,
{
    proof {
        crate::num::lemma_abs_mul_bound(c as int, extent as int, 100_000_000_000_000, 100_000);
        lemma_div_tz_bound(c as int * extent as int, SCALE as int, 10_000_000_000_000_000_000);
    }
    let i = div_trunc(mul_ww(c, extent as i64), SCALE as i128);
    if i < 0 {
        0
    } else if i > extent as i128 - 1 {
        extent - 1
    } else {
        i as usize
    }
}

/// The diffuse intensity factors of a material at texture coordinates
/// `(u, v)`, at scale `SCALE`.
pub open spec fn spec_diffusion(t: Texture, u: int, v: int) -> (int, int, int) {
    match t {
        Texture::Uniform(ut) => (
            ut.spec_diff() * ut.spec_color().0,
            ut.spec_diff() * ut.spec_color().1,
            ut.spec_diff() * ut.spec_color().2,
        ),
        Texture::UVMap(mt) => {
            let i = spec_uv_index(SCALE - u, mt.spec_buffer().spec_width());
            let j = spec_uv_index(v, mt.spec_buffer().spec_height());
            let p = mt.spec_buffer().spec_pixel(j, i);
            (p.0 * SCALE, p.1 * SCALE, p.2 * SCALE)
        },
    }
}

/// The specular coefficient of a material.
pub open spec fn spec_specularity(t: Texture) -> int {
    match t {
        Texture::Uniform(ut) => ut.spec_refl(),
        Texture::UVMap(mt) => mt.spec_refl(),
    }
}

impl Texture {
    pub open spec fn wf(self) -> bool {
        match self {
            Texture::Uniform(ut) => ut.wf(),
            Texture::UVMap(mt) => mt.wf(),
        }
    }

    /// The diffuse factors at `(u, v)`: a uniform material scales its
    /// color by its diffuse factor and ignores the coordinates; an
    /// image material samples the raster, inverting the `u` axis.
    pub fn diffusion(&self, u: i64, v: i64) -> (r: (i64, i64, i64))
        requires
            self.wf(),
            in_range(u as int, 99_000_000_000_000),
            in_range(v as int, 100_000_000_000_000),
        ensures
            (r.0 as int, r.1 as int, r.2 as int) == spec_diffusion(*self, u as int, v as int),
            0 <= r.0 <= 255 * SCALE * 10,
            0 <= r.1 <= 255 * SCALE * 10,
            0 <= r.2 <= 255 * SCALE * 10,
    {
        match self {
            Texture::Uniform(ut) => {
                proof {
                    crate::num::lemma_abs_mul_bound(ut.spec_diff(), ut.spec_color().0 as int, 10_000, 255);
                    crate::num::lemma_abs_mul_bound(ut.spec_diff(), ut.spec_color().1 as int, 10_000, 255);
                    crate::num::lemma_abs_mul_bound(ut.spec_diff(), ut.spec_color().2 as int, 10_000, 255);
                    vstd::arithmetic::mul::lemma_mul_nonnegative(ut.spec_diff(), ut.spec_color().0 as int);
                    vstd::arithmetic::mul::lemma_mul_nonnegative(ut.spec_diff(), ut.spec_color().1 as int);
                    vstd::arithmetic::mul::lemma_mul_nonnegative(ut.spec_diff(), ut.spec_color().2 as int);
                }
                (
                    ut.diff * (ut.color.0 as i64),
                    ut.diff * (ut.color.1 as i64),
                    ut.diff * (ut.color.2 as i64),
                )
            },
            Texture::UVMap(mt) => {
                let i = uv_index(SCALE - u, mt.buffer.width());
                let j = uv_index(v, mt.buffer.height());
                let p = mt.buffer.get(j, i);
                ((p.0 as i64) * SCALE, (p.1 as i64) * SCALE, (p.2 as i64) * SCALE)
            },
        }
    }

    /// The specular coefficient; the sampling position is ignored by
    /// both materials.
    pub fn specularity(&self) -> (r: i64)
        requires
            self.wf(),
        ensures
            r as int == spec_specularity(*self),
            0 <= r <= 10 * SCALE,
    {
        match self {
            Texture::Uniform(ut) => ut.refl,
            Texture::UVMap(mt) => mt.refl,
        }
    }
}

} // verus!
