//! The output raster: a row-major grid of colors.

use vstd::prelude::*;
use crate::geometry::Color;

verus! {

/// The decimal digits of a nonnegative number, as ASCII bytes.
pub open spec fn spec_dec(n: int) -> Seq<u8>
    decreases n,
    when n >= 0
{
    if n < 10 {
        seq![(48 + n) as u8]
    } else {
        spec_dec(n / 10).push((48 + n % 10) as u8)
    }
}

/// The textual form of one pixel: the three channel values separated
/// by spaces, ended by a newline.
pub open spec fn spec_ppm_pixel(c: Color) -> Seq<u8> {
    spec_dec(c.0 as int) + seq![32u8] + spec_dec(c.1 as int) + seq![32u8] + spec_dec(c.2 as int)
        + seq![10u8]
}

/// The digits of `n`, executed.
pub fn dec_bytes(n: u64) -> (r: Vec<u8>)
    ensures
        r@ == spec_dec(n as int),
    decreases n,
{
    if n < 10 {
        let mut v: Vec<u8> = Vec::new();
        v.push(48 + (n as u8));
        proof {
            assert(v@ =~= spec_dec(n as int));
        }
        v
    } else {
        let mut v = dec_bytes(n / 10);
        v.push(48 + ((n % 10) as u8));
        v
    }
}

/// A `height * width` grid of colors, stored row-major.
#[derive(Clone)]
pub struct Image {
    grid: Vec<Color>,
    height: usize,
    width: usize,
}

/// A row-major index stays inside the grid.
pub proof fn lemma_rowmajor_bound(x: int, y: int, h: int, w: int)
    by (nonlinear_arith)
    requires
        0 <= x < h,
        0 <= y < w,
    ensures
        0 <= x * w + y < h * w,
{
}

impl Image {
    /// The pixels, row-major, for specifications.
    pub closed spec fn spec_grid(self) -> Seq<Color> {
        self.grid@
    }

    pub closed spec fn spec_height(self) -> int {
        self.height as int
    }

    pub closed spec fn spec_width(self) -> int {
        self.width as int
    }

    /// The grid holds exactly one color per pixel.
    pub open spec fn wf(self) -> bool {
        self.spec_grid().len() == self.spec_height() * self.spec_width()
    }

    /// The pixel at row `x`, column `y`, for specifications.
    pub open spec fn spec_pixel(self, x: int, y: int) -> Color {
        self.spec_grid()[x * self.spec_width() + y]
    }

    /// A black image of the given dimensions.
    pub fn new(height: usize, width: usize) -> (r: Image)
        requires
            height * width <= 100_000_000,
        ensures
            r.wf(),
            r.spec_height() == height,
            r.spec_width() == width,
            forall|i: int|
                0 <= i < height * width ==> r.spec_grid()[i] == (Color(0u8, 0u8, 0u8)),
    {
        let n = height * width;
        let mut grid: Vec<Color> = Vec::new();
        let mut i: usize = 0;
        while i < n
            invariant
                grid@.len() == i,
                i <= n,
                forall|j: int| 0 <= j < i ==> grid@[j] == (Color(0u8, 0u8, 0u8)),
            decreases n - i,
        {
            grid.push(Color(0, 0, 0));
            i = i + 1;
        }
        Image { grid, height, width }
    }

    pub fn height(&self) -> (r: usize)
        ensures
            r == self.spec_height(),
    {
        self.height
    }

    pub fn width(&self) -> (r: usize)
        ensures
            r == self.spec_width(),
    {
        self.width
    }

    /// Write one pixel.  Out-of-range coordinates are ruled out by the
    /// precondition; the original treats them as a fatal error.
    pub fn set(&mut self, x: usize, y: usize, color: Color)
        requires
            old(self).wf(),
            x < old(self).spec_height(),
            y < old(self).spec_width(),
        ensures
            final(self).wf(),
            final(self).spec_height() == old(self).spec_height(),
            final(self).spec_width() == old(self).spec_width(),
            final(self).spec_grid() == old(self).spec_grid().update(
                x * old(self).spec_width() + y,
                color,
            ),
    {
        let total = self.grid.len();
        proof {
            lemma_rowmajor_bound(x as int, y as int, self.height as int, self.width as int);
            assert(x * self.spec_width() + y < total);
        }
        let idx = x * self.width + y;
        self.grid[idx] = color;
    }

    /// The pixels of one row, in text form.
    pub open spec fn spec_ppm_row(self, i: int, upto: int) -> Seq<u8>
        decreases upto,
    {
        if upto <= 0 {
            Seq::empty()
        } else {
            self.spec_ppm_row(i, upto - 1) + spec_ppm_pixel(self.spec_pixel(i, upto - 1))
        }
    }

    /// The rows up to `upto`, in text form, each ended by a blank line.
    pub open spec fn spec_ppm_rows(self, upto: int) -> Seq<u8>
        decreases upto,
    {
        if upto <= 0 {
            Seq::empty()
        } else {
            self.spec_ppm_rows(upto - 1) + self.spec_ppm_row(upto - 1, self.spec_width())
                + seq![10u8]
        }
    }

    /// The full textual raster: the magic number, the dimensions and
    /// the channel maximum, then every pixel row.
    pub open spec fn spec_ppm(self) -> Seq<u8> {
        seq![80u8, 51u8, 10u8] + spec_dec(self.spec_width()) + seq![32u8] + spec_dec(
            self.spec_height(),
        ) + seq![32u8, 50u8, 53u8, 53u8, 10u8] + self.spec_ppm_rows(self.spec_height())
    }

    /// The image as portable-pixmap text, ready to be written out.
    pub fn ppm_bytes(&self) -> (r: Vec<u8>)
        requires
            self.wf(),
        ensures
            r@ == self.spec_ppm(),
    {
        let mut out: Vec<u8> = Vec::new();
        out.push(80);
        out.push(51);
        out.push(10);
        let mut wd = dec_bytes(self.width as u64);
        out.append(&mut wd);
        out.push(32);
        let mut hd = dec_bytes(self.height as u64);
        out.append(&mut hd);
        out.push(32);
        out.push(50);
        out.push(53);
        out.push(53);
        out.push(10);
        let ghost header = out@;
        proof {
            assert(header =~= seq![80u8, 51u8, 10u8] + spec_dec(self.spec_width()) + seq![32u8]
                + spec_dec(self.spec_height()) + seq![32u8, 50u8, 53u8, 53u8, 10u8]);
        }
        let h = self.height;
        let w = self.width;
        let mut i: usize = 0;
        while i < h
            invariant
                self.wf(),
                h as int == self.spec_height(),
                w as int == self.spec_width(),
                i <= h,
                out@ == header + self.spec_ppm_rows(i as int),
            decreases h - i,
        {
            let ghost row_base = out@;
            let mut j: usize = 0;
            while j < w
                invariant
                    self.wf(),
                    h as int == self.spec_height(),
                    w as int == self.spec_width(),
                    i < h,
                    j <= w,
                    out@ == row_base + self.spec_ppm_row(i as int, j as int),
                decreases w - j,
            {
                let c = self.get(i, j);
                let mut rb = dec_bytes(c.0 as u64);
                out.append(&mut rb);
                out.push(32);
                let mut gb = dec_bytes(c.1 as u64);
                out.append(&mut gb);
                out.push(32);
                let mut bb = dec_bytes(c.2 as u64);
                out.append(&mut bb);
                out.push(10);
                proof {
                    assert(out@ =~= row_base + self.spec_ppm_row(i as int, j as int)
                        + spec_ppm_pixel(self.spec_pixel(i as int, j as int)));
                }
                j = j + 1;
            }
            out.push(10);
            proof {
                assert(out@ =~= header + self.spec_ppm_rows(i as int) + self.spec_ppm_row(
                    i as int,
                    w as int,
                ) + seq![10u8]);
            }
            i = i + 1;
        }
        out
    }

    /// The pixels as a flat byte buffer: three channel bytes per
    /// pixel, row-major, as an image encoder consumes them.
    pub fn rgb_buffer(&self) -> (r: Vec<u8>)
        ensures
            r@.len() == 3 * self.spec_grid().len(),
            forall|i: int|
                0 <= i < self.spec_grid().len() ==> r@[3 * i] == (#[trigger] self.spec_grid()[i]).0
                    && r@[3 * i + 1] == self.spec_grid()[i].1 && r@[3 * i + 2]
                    == self.spec_grid()[i].2,
    {
        let mut buf: Vec<u8> = Vec::new();
        let n = self.grid.len();
        let mut i: usize = 0;
        while i < n
            invariant
                n == self.spec_grid().len(),
                i <= n,
                buf@.len() == 3 * i,
                forall|k: int|
                    0 <= k < i ==> buf@[3 * k] == (#[trigger] self.spec_grid()[k]).0 && buf@[3 * k
                        + 1] == self.spec_grid()[k].1 && buf@[3 * k + 2] == self.spec_grid()[k].2,
            decreases n - i,
        {
            let c = self.grid[i];
            buf.push(c.0);
            buf.push(c.1);
            buf.push(c.2);
            i = i + 1;
        }
        buf
    }

    /// Read one pixel.
    pub fn get(&self, x: usize, y: usize) -> (r: Color)
        requires
            self.wf(),
            x < self.spec_height(),
            y < self.spec_width(),
        ensures
            r == self.spec_pixel(x as int, y as int),
    {
        let total = self.grid.len();
        proof {
            lemma_rowmajor_bound(x as int, y as int, self.height as int, self.width as int);
            assert(x * self.spec_width() + y < total);
        }
        let idx = x * self.width + y;
        self.grid[idx]
    }
}

} // verus!
