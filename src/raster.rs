use vstd::prelude::*;
use vstd::arithmetic::div_mod::{lemma_fundamental_div_mod, lemma_fundamental_div_mod_converse};

verus! {

/// An opaque RGB pixel.
#[derive(Clone, Copy, Debug, PartialEq, Eq, Structural)]
pub struct Color {
    pub r: u8,
    pub g: u8,
    pub b: u8,
}

/// The colour of a pixel that no bar covers.
pub open spec fn unfilled() -> Color {
    Color { r: 0, g: 0, b: 0 }
}

/// The eight bar colours, left to right: white, yellow, light blue, green,
/// purple, red, blue, black.
pub open spec fn palette(k: int) -> Color {
    if k == 0 {
        Color { r: 255, g: 255, b: 255 }
    } else if k == 1 {
        Color { r: 255, g: 255, b: 0 }
    } else if k == 2 {
        Color { r: 173, g: 216, b: 230 }
    } else if k == 3 {
        Color { r: 0, g: 255, b: 0 }
    } else if k == 4 {
        Color { r: 128, g: 0, b: 128 }
    } else if k == 5 {
        Color { r: 255, g: 0, b: 0 }
    } else if k == 6 {
        Color { r: 0, g: 0, b: 255 }
    } else {
        Color { r: 0, g: 0, b: 0 }
    }
}

/// Colour of column `x` in a raster of eight bars of `band_width` pixels each;
/// `reversed` walks the palette from its last colour to its first. Columns
/// right of the eighth bar are left unfilled.
pub open spec fn band_color(x: int, band_width: int, reversed: bool) -> Color {
    if band_width > 0 && x / band_width < 8 {
        if reversed {
            palette(7 - x / band_width)
        } else {
            palette(x / band_width)
        }
    } else {
        unfilled()
    }
}

/// The palette colour with index `k`.
pub fn palette_color(k: u32) -> (c: Color)
    requires
        k < 8,
    ensures
        c == palette(k as int),
{
    if k == 0 {
        Color { r: 255, g: 255, b: 255 }
    } else if k == 1 {
        Color { r: 255, g: 255, b: 0 }
    } else if k == 2 {
        Color { r: 173, g: 216, b: 230 }
    } else if k == 3 {
        Color { r: 0, g: 255, b: 0 }
    } else if k == 4 {
        Color { r: 128, g: 0, b: 128 }
    } else if k == 5 {
        Color { r: 255, g: 0, b: 0 }
    } else if k == 6 {
        Color { r: 0, g: 0, b: 255 }
    } else {
        Color { r: 0, g: 0, b: 0 }
    }
}

/// Width of each of the eight bars of a raster `width` pixels wide; the
/// remainder of the division stays unfilled.
pub fn band_width(width: u32) -> (r: u32)
    ensures
        r == width / 8,
        8 * r <= width,
{
    width / 8
}

/// Colour of column `x` among bars of `band_width` pixels.
pub fn column_color(x: u32, band_width: u32, reversed: bool) -> (c: Color)
    ensures
        c == band_color(x as int, band_width as int, reversed),
{
    if band_width > 0 && x / band_width < 8 {
        let k = x / band_width;
        if reversed {
            palette_color(7 - k)
        } else {
            palette_color(k)
        }
    } else {
        Color { r: 0, g: 0, b: 0 }
    }
}

/// A `width` × `height` grid of pixels, stored row by row.
#[derive(Clone, Debug)]
pub struct Raster {
    pub width: u32,
    pub height: u32,
    pub pixels: Vec<Color>,
}

impl Raster {
    /// The pixel store holds exactly one entry per cell.
    pub open spec fn wf(&self) -> bool {
        self.pixels@.len() == self.width * self.height
    }

    /// The pixel in column `x` of row `y`.
    pub open spec fn pixel(&self, x: int, y: int) -> Color {
        self.pixels@[y * self.width + x]
    }

    /// The pixel in column `x` of row `y`.
    pub fn get_pixel(&self, x: u32, y: u32) -> (c: Color)
        requires
            self.wf(),
            x < self.width,
            y < self.height,
        ensures
            c == self.pixel(x as int, y as int),
    {
        let n = self.pixels.len();
        proof {
            lemma_cell(x as int, y as int, self.width as int, self.height as int);
        }
        self.pixels[y as usize * self.width as usize + x as usize]
    }
}

/// Cell `(x, y)` of a row-major grid `w` wide and `h` high sits at index
/// `y * w + x`, and that index gives `x` and `y` back.
pub proof fn lemma_cell(x: int, y: int, w: int, h: int)
    requires
        0 <= x < w,
        0 <= y < h,
    ensures
        0 <= y * w <= y * w + x < w * h,
        (y * w + x) % w == x,
        (y * w + x) / w == y,
{
    lemma_fundamental_div_mod_converse(y * w + x, w, y, x);
    assert(0 <= y * w) by (nonlinear_arith)
        requires
            0 <= y,
            0 < w,
    ;
    assert(y * w + x < w * h) by (nonlinear_arith)
        requires
            0 <= x < w,
            0 <= y < h,
    ;
}

/// Index `i` of a row-major grid `w` wide and `h` high is cell
/// `(i % w, i / w)`.
proof fn lemma_index(i: int, w: int, h: int)
    requires
        0 <= i < w * h,
        0 <= w,
        0 <= h,
    ensures
        w > 0,
        0 <= i % w < w,
        0 <= i / w < h,
        i == (i / w) * w + i % w,
{
    assert(w > 0) by (nonlinear_arith)
        requires
            0 <= i < w * h,
            0 <= w,
            0 <= h,
    ;
    lemma_fundamental_div_mod(i, w);
    assert(w * (i / w) == (i / w) * w) by (nonlinear_arith);
    assert(0 <= i / w < h) by (nonlinear_arith)
        requires
            0 <= i < w * h,
            w > 0,
            i == w * (i / w) + i % w,
            0 <= i % w < w,
    ;
}

/// A `width` × `height` raster of eight vertical bars, each `width / 8`
/// pixels wide and running the full height, in palette order or reversed.
pub fn build_bands(width: u32, height: u32, reversed: bool) -> (r: Raster)
    requires
        width * height <= usize::MAX,
    ensures
        r.wf(),
        r.width == width,
        r.height == height,
        forall|x: int, y: int|
            0 <= x < width && 0 <= y < height ==> #[trigger] r.pixel(x, y) == band_color(
                x,
                (width / 8) as int,
                reversed,
            ),
{
    let bw = band_width(width);
    let n: usize = width as usize * height as usize;
    let mut pixels: Vec<Color> = Vec::with_capacity(n);
    let mut i: usize = 0;
    while i < n
        invariant
            n == width * height,
            bw == width / 8,
            i <= n,
            pixels@.len() == i,
            forall|j: int|
                0 <= j < i ==> #[trigger] pixels@[j] == band_color(j % width as int, bw as int, reversed),
        decreases n - i,
    {
        proof {
            lemma_index(i as int, width as int, height as int);
        }
        let x = (i % width as usize) as u32;
        let c = column_color(x, bw, reversed);
        pixels.push(c);
        i = i + 1;
    }
    let r = Raster { width, height, pixels };
    assert forall|x: int, y: int| 0 <= x < width && 0 <= y < height implies #[trigger] r.pixel(x, y)
        == band_color(x, (width / 8) as int, reversed) by {
        lemma_cell(x, y, width as int, height as int);
    }
    r
}

/// Colour at `(x, y)` once `top` is laid over `base` with its top-left corner
/// at column 0, row `offset`: opaque, with whatever falls outside `base` cut
/// away.
pub open spec fn overlay_pixel(base: Raster, top: Raster, offset: int, x: int, y: int) -> Color {
    if offset <= y && y < offset + top.height && x < top.width {
        top.pixel(x, y - offset)
    } else {
        base.pixel(x, y)
    }
}

/// `r` is `base` with `top` laid over it at row `offset`.
pub open spec fn is_overlay(r: Raster, base: Raster, top: Raster, offset: int) -> bool {
    &&& r.wf()
    &&& r.width == base.width
    &&& r.height == base.height
    &&& forall|x: int, y: int|
        0 <= x < base.width && 0 <= y < base.height ==> #[trigger] r.pixel(x, y) == overlay_pixel(
            base,
            top,
            offset,
            x,
            y,
        )
}

/// A fresh copy of `base` with `top` laid over it opaquely at column 0, row
/// `offset`. Rows or columns of `top` that fall outside `base` are clipped,
/// so every offset is accepted.
pub fn overlay(base: &Raster, top: &Raster, offset: u32) -> (r: Raster)
    requires
        base.wf(),
        top.wf(),
    ensures
        is_overlay(r, *base, *top, offset as int),
{
    let w = base.width;
    let n: usize = base.pixels.len();
    let mut pixels: Vec<Color> = Vec::with_capacity(n);
    let mut i: usize = 0;
    while i < n
        invariant
            base.wf(),
            top.wf(),
            n == base.width * base.height,
            w == base.width,
            i <= n,
            pixels@.len() == i,
            forall|j: int|
                0 <= j < i ==> #[trigger] pixels@[j] == overlay_pixel(
                    *base,
                    *top,
                    offset as int,
                    j % w as int,
                    j / w as int,
                ),
        decreases n - i,
    {
        proof {
            lemma_index(i as int, w as int, base.height as int);
        }
        let x: usize = i % w as usize;
        let y: usize = i / w as usize;
        let off: usize = offset as usize;
        if off <= y && y - off < top.height as usize && x < top.width as usize {
            let ty: usize = y - off;
            let tn = top.pixels.len();
            proof {
                lemma_cell(x as int, ty as int, top.width as int, top.height as int);
            }
            let c = top.pixels[ty * top.width as usize + x];
            pixels.push(c);
        } else {
            pixels.push(base.pixels[i]);
        }
        i = i + 1;
    }
    let r = Raster { width: base.width, height: base.height, pixels };
    assert forall|x: int, y: int| 0 <= x < base.width && 0 <= y < base.height implies #[trigger] r.pixel(
        x,
        y,
    ) == overlay_pixel(*base, *top, offset as int, x, y) by {
        lemma_cell(x, y, w as int, base.height as int);
    }
    r
}

/// Laying the same raster over the same base at the same offset twice gives
/// identical pixels.
pub proof fn lemma_overlay_deterministic(base: Raster, top: Raster, offset: int, a: Raster, b: Raster)
    requires
        is_overlay(a, base, top, offset),
        is_overlay(b, base, top, offset),
    ensures
        a.width == b.width,
        a.height == b.height,
        a.pixels@ == b.pixels@,
{
    assert forall|i: int| 0 <= i < a.pixels@.len() implies a.pixels@[i] == b.pixels@[i] by {
        lemma_index(i, a.width as int, a.height as int);
        let x = i % a.width as int;
        let y = i / a.width as int;
        assert(a.pixel(x, y) == b.pixel(x, y));
    }
    assert(a.pixels@ =~= b.pixels@);
}

/// However many columns are left over, the eight bars fit within the width,
/// and each is at least one pixel wide once the width reaches eight.
pub proof fn lemma_bands_fit(width: nat)
    requires
        width >= 8,
    ensures
        width / 8 >= 1,
        8 * (width / 8) <= width,
        width - 8 * (width / 8) < 8,
{
}

} // verus!
