//! The half-block renderer: two vertically stacked pixels per character cell,
//! the upper one as the glyph's colour and the lower one as the cell's background.
use vstd::prelude::*;
use crate::native::{Ratio, fit_ratio, lemma_scaled_unit, scaled};
use crate::raster::{Image, byte_at, resample, shown_as};
use crate::viewport::min;

verus! {

/// A colour.
#[derive(Clone, Copy, Debug, PartialEq, Eq, Structural)]
pub struct Rgb {
    pub r: u8,
    pub g: u8,
    pub b: u8,
}

/// One output cell: blank and unstyled, or an upper-half glyph whose foreground
/// is the upper pixel and whose background is the lower one.
#[derive(Clone, Copy, Debug, PartialEq, Eq, Structural)]
pub enum HalfCell {
    Blank,
    Upper { fg: Rgb, bg: Rgb },
}

/// The colour that stands for "outside the image" next to an image pixel.
pub open spec fn fill() -> Rgb {
    Rgb { r: 0, g: 0, b: 0 }
}

/// Size and centring offsets, in pixels, of the image on the half-block canvas.
#[derive(Clone, Copy, Debug, PartialEq, Eq, Structural)]
pub struct HalfLayout {
    pub scale: Ratio,
    pub width: u32,
    pub height: u32,
    pub off_x: u32,
    pub off_y: u32,
}

/// On a canvas of `wc` by `2 * hc` pixels: the fit scale (upscaling allowed), the
/// scaled size clamped to the canvas, and the offsets that centre it.
pub open spec fn half_layout_of(iw: int, ih: int, wc: int, hc: int) -> HalfLayout {
    let s = fit_ratio(iw, ih, wc, 2 * hc);
    let w = min(wc, scaled(iw, s));
    let h = min(2 * hc, scaled(ih, s));
    HalfLayout { scale: s, width: w as u32, height: h as u32, off_x: ((wc - w) / 2) as u32, off_y: ((2 * hc - h) / 2) as u32 }
}

/// The pixel `(x, y)` of an RGBA buffer of width `w`.
pub open spec fn pixel_at(p: Seq<u8>, w: int, x: int, y: int) -> Rgb {
    Rgb { r: p[byte_at(w, x, y, 0)], g: p[byte_at(w, x, y, 1)], b: p[byte_at(w, x, y, 2)] }
}

/// The image row that half `half` (0 upper, 1 lower) of output row `row` shows.
pub open spec fn sample_row(lay: HalfLayout, row: int, half: int) -> int {
    2 * row + half - lay.off_y
}

/// The image column that output column `col` shows.
pub open spec fn sample_col(lay: HalfLayout, col: int) -> int {
    col - lay.off_x
}

pub open spec fn inside(lay: HalfLayout, x: int, y: int) -> bool {
    0 <= x < lay.width && 0 <= y < lay.height
}

/// The cell at `(col, row)` for the scaled pixels `p` placed by `lay`.
pub open spec fn cell_of(p: Seq<u8>, lay: HalfLayout, col: int, row: int) -> HalfCell {
    let x = sample_col(lay, col);
    let top = sample_row(lay, row, 0);
    let bottom = sample_row(lay, row, 1);
    let w = lay.width as int;
    if inside(lay, x, top) && inside(lay, x, bottom) {
        HalfCell::Upper { fg: pixel_at(p, w, x, top), bg: pixel_at(p, w, x, bottom) }
    } else if inside(lay, x, top) {
        HalfCell::Upper { fg: pixel_at(p, w, x, top), bg: fill() }
    } else if inside(lay, x, bottom) {
        HalfCell::Upper { fg: fill(), bg: pixel_at(p, w, x, bottom) }
    } else {
        HalfCell::Blank
    }
}

/// `len * s`, rounded, at least 1, and at most `cap`.
fn scale_capped(len: u32, s: Ratio, cap: u32) -> (r: u32)
    requires
        len >= 1,
        s.den >= 1,
        s.den <= u32::MAX,
        s.num <= u32::MAX,
    ensures
        r == min(cap as int, scaled(len as int, s)),
{
    proof {
        assert(2 * (len as int) * s.num + s.den <= u128::MAX) by (nonlinear_arith)
            requires len <= u32::MAX, s.num <= u32::MAX, s.den <= u32::MAX;
    }
    let q: u128 = (2 * len as u128 * s.num as u128 + s.den as u128) / (2 * s.den as u128);
    let v: u128 = if q >= 1 { q } else { 1 };
    if v <= cap as u128 { v as u32 } else { cap }
}

/// The layout of an `iw` by `ih` image on `wc` by `hc` cells.
pub fn half_layout(iw: u32, ih: u32, wc: u16, hc: u16) -> (r: HalfLayout)
    requires
        iw >= 1,
        ih >= 1,
        wc >= 1,
        hc >= 1,
    ensures
        r == half_layout_of(iw as int, ih as int, wc as int, hc as int),
        1 <= r.width <= wc,
        1 <= r.height <= 2 * hc,
{
    let aw: u64 = wc as u64;
    let ah: u64 = 2 * hc as u64;
    proof {
        assert(aw * ih <= u64::MAX) by (nonlinear_arith) requires aw <= u16::MAX, ih <= u32::MAX;
        assert(ah * iw <= u64::MAX) by (nonlinear_arith) requires ah <= 2 * u16::MAX, iw <= u32::MAX;
    }
    let s: Ratio = if aw * ih as u64 <= ah * iw as u64 {
        Ratio { num: aw, den: iw as u64 }
    } else {
        Ratio { num: ah, den: ih as u64 }
    };
    let w: u32 = scale_capped(iw, s, wc as u32);
    let h: u32 = scale_capped(ih, s, 2 * hc as u32);
    HalfLayout { scale: s, width: w, height: h, off_x: (wc as u32 - w) / 2, off_y: (2 * hc as u32 - h) / 2 }
}

fn pixel(p: &Vec<u8>, w: u32, h: u32, x: u32, y: u32) -> (r: Rgb)
    requires
        p@.len() == w * h * 4,
        x < w,
        y < h,
    ensures
        r == pixel_at(p@, w as int, x as int, y as int),
{
    let n: usize = p.len();
    proof {
        assert(byte_at(w as int, x as int, y as int, 3) < p@.len()) by (nonlinear_arith)
            requires p@.len() == w * h * 4, x < w, y < h;
        assert(y * w <= y * w + x);
        assert(0 <= y * w) by (nonlinear_arith) requires y >= 0, w >= 0;
    }
    let i: usize = (y as usize * w as usize + x as usize) * 4;
    Rgb { r: p[i], g: p[i + 1], b: p[i + 2] }
}

/// The cell at `(col, row)`; `col` and `row` within the canvas.
fn cell(p: &Vec<u8>, lay: HalfLayout, col: u32, row: u32) -> (r: HalfCell)
    requires
        p@.len() == lay.width * lay.height * 4,
        col <= u16::MAX,
        row <= u16::MAX,
    ensures
        r == cell_of(p@, lay, col as int, row as int),
{
    let x: i64 = col as i64 - lay.off_x as i64;
    let top: i64 = 2 * row as i64 - lay.off_y as i64;
    let bottom: i64 = top + 1;
    let xin: bool = 0 <= x && x < lay.width as i64;
    let tin: bool = xin && 0 <= top && top < lay.height as i64;
    let bin: bool = xin && 0 <= bottom && bottom < lay.height as i64;
    if tin && bin {
        HalfCell::Upper {
            fg: pixel(p, lay.width, lay.height, x as u32, top as u32),
            bg: pixel(p, lay.width, lay.height, x as u32, bottom as u32),
        }
    } else if tin {
        HalfCell::Upper { fg: pixel(p, lay.width, lay.height, x as u32, top as u32), bg: Rgb { r: 0, g: 0, b: 0 } }
    } else if bin {
        HalfCell::Upper { fg: Rgb { r: 0, g: 0, b: 0 }, bg: pixel(p, lay.width, lay.height, x as u32, bottom as u32) }
    } else {
        HalfCell::Blank
    }
}

/// The grid of `hc` rows of `wc` cells for the RGBA bytes `pixels`, already at the
/// size of `lay`, placed as `lay` says.
pub fn halfblock_grid(pixels: &Vec<u8>, lay: HalfLayout, wc: u16, hc: u16) -> (r: Vec<Vec<HalfCell>>)
    requires
        pixels@.len() == lay.width * lay.height * 4,
    ensures
        r@.len() == hc,
        forall|row: int| 0 <= row < hc ==> (#[trigger] r@[row])@.len() == wc,
        forall|row: int, col: int| 0 <= row < hc && 0 <= col < wc
            ==> (#[trigger] r@[row]@[col]) == cell_of(pixels@, lay, col, row),
{
    let mut grid: Vec<Vec<HalfCell>> = Vec::new();
    let mut row: u16 = 0;
    while row < hc
        invariant
            row <= hc,
            grid@.len() == row,
            pixels@.len() == lay.width * lay.height * 4,
            forall|j: int| 0 <= j < row ==> (#[trigger] grid@[j])@.len() == wc,
            forall|j: int, c: int| 0 <= j < row && 0 <= c < wc
                ==> (#[trigger] grid@[j]@[c]) == cell_of(pixels@, lay, c, j),
        decreases hc - row,
    {
        let mut line: Vec<HalfCell> = Vec::new();
        let mut col: u16 = 0;
        while col < wc
            invariant
                col <= wc,
                row < hc,
                line@.len() == col,
                pixels@.len() == lay.width * lay.height * 4,
                forall|c: int| 0 <= c < col ==> (#[trigger] line@[c]) == cell_of(pixels@, lay, c, row as int),
            decreases wc - col,
        {
            line.push(cell(pixels, lay, col as u32, row as u32));
            col += 1;
        }
        grid.push(line);
        row += 1;
    }
    grid
}

/// The grid of `hc` rows of `wc` cells that shows `img` scaled to fit and centred;
/// on an empty canvas the grid has no cells. The pixels are the image's own when
/// the size is unchanged; otherwise they are resampled, and all that is known of
/// them is their number.
pub fn render_halfblock(img: &Image, wc: u16, hc: u16) -> (r: Vec<Vec<HalfCell>>)
    requires
        img.wf(),
        img.width * img.height * 16 <= isize::MAX,
        img.width * (2 * hc) * 16 <= usize::MAX,
        wc * (2 * hc) * 16 <= usize::MAX,
    ensures
        r@.len() == hc,
        forall|row: int| 0 <= row < hc ==> (#[trigger] r@[row])@.len() == wc,
        wc >= 1 && hc >= 1 ==> ({
            let lay = half_layout_of(img.width as int, img.height as int, wc as int, hc as int);
            exists|p: Seq<u8>| #[trigger] shown_as(img, lay.width, lay.height, p)
                && forall|row: int, col: int| 0 <= row < hc && 0 <= col < wc
                    ==> (#[trigger] r@[row]@[col]) == cell_of(p, lay, col, row)
        }),
{
    if wc == 0 || hc == 0 {
        let lay = HalfLayout { scale: Ratio { num: 1, den: 1 }, width: 0, height: 0, off_x: 0, off_y: 0 };
        let empty: Vec<u8> = Vec::new();
        assert(empty@.len() == lay.width * lay.height * 4);
        return halfblock_grid(&empty, lay, wc, hc);
    }
    let lay: HalfLayout = half_layout(img.width, img.height, wc, hc);
    let pixels: Vec<u8> = if lay.width == img.width && lay.height == img.height {
        img.duplicate().pixels
    } else {
        proof {
            assert(lay.width as int * lay.height as int * 16 <= wc * (2 * hc) * 16) by (nonlinear_arith)
                requires lay.width <= wc, lay.height <= 2 * hc;
            assert(img.width as int * lay.height as int * 16 <= img.width * (2 * hc) * 16) by (nonlinear_arith)
                requires lay.height <= 2 * hc;
        }
        resample(img, lay.width, lay.height)
    };
    let r = halfblock_grid(&pixels, lay, wc, hc);
    proof {
        assert(shown_as(img, lay.width, lay.height, pixels@));
    }
    r
}

/// The half-block renderer applies one scale to both axes, and that scale fits the
/// image into the canvas on each axis.
pub proof fn lemma_half_uniform_scale(iw: u32, ih: u32, wc: u16, hc: u16)
    requires
        iw >= 1,
        ih >= 1,
    ensures
        ({
            let lay = half_layout_of(iw as int, ih as int, wc as int, hc as int);
            let s = lay.scale;
            &&& lay.width == min(wc as int, scaled(iw as int, s))
            &&& lay.height == min(2 * hc, scaled(ih as int, s))
            &&& s.num * iw <= wc * s.den
            &&& s.num * ih <= 2 * hc * s.den
        }),
{
    let s = fit_ratio(iw as int, ih as int, wc as int, 2 * hc);
    assert(s.num * iw <= wc * s.den && s.num * ih <= 2 * hc * s.den) by (nonlinear_arith)
        requires s == fit_ratio(iw as int, ih as int, wc as int, 2 * hc), wc <= u16::MAX, hc <= u16::MAX;
}

/// The output row whose halves hold image row `y` at zero offset.
pub open spec fn row_of(y: int) -> int {
    y / 2
}

/// Which half (0 upper, 1 lower) holds image row `y` at zero offset.
pub open spec fn half_of(y: int) -> int {
    y % 2
}

/// When the image is `2 * hc` pixels high and no wider than the canvas, it is shown
/// at its own size without vertical offset, and each of its rows is sampled by
/// exactly one half of one output row: row `y` by half `half_of(y)` of row `row_of(y)`.
pub proof fn lemma_rows_sampled_once(iw: u32, ih: u32, wc: u16, hc: u16)
    requires
        iw >= 1,
        hc >= 1,
        ih == 2 * hc,
        wc >= iw,
    ensures
        ({
            let lay = half_layout_of(iw as int, ih as int, wc as int, hc as int);
            &&& lay.width == iw
            &&& lay.height == ih
            &&& lay.off_y == 0
            &&& forall|row: int, half: int| 0 <= row < hc && 0 <= half < 2
                ==> 0 <= #[trigger] sample_row(lay, row, half) < ih
            &&& forall|y: int| 0 <= y < ih ==> sample_row(lay, #[trigger] row_of(y), half_of(y)) == y
            &&& forall|r1: int, h1: int, r2: int, h2: int|
                0 <= h1 < 2 && 0 <= h2 < 2 && #[trigger] sample_row(lay, r1, h1) == #[trigger] sample_row(lay, r2, h2)
                ==> r1 == r2 && h1 == h2
        }),
{
    let lay = half_layout_of(iw as int, ih as int, wc as int, hc as int);
    let s = fit_ratio(iw as int, ih as int, wc as int, 2 * hc);
    if wc as int * ih <= 2 * hc * iw {
        assert(wc == iw) by (nonlinear_arith) requires wc as int * ih <= ih * iw, wc >= iw, ih >= 1;
        lemma_scaled_unit(iw as int, Ratio { num: iw as u64, den: iw as u64 });
        lemma_scaled_unit(ih as int, Ratio { num: iw as u64, den: iw as u64 });
    } else {
        lemma_scaled_unit(iw as int, Ratio { num: ih as u64, den: ih as u64 });
        lemma_scaled_unit(ih as int, Ratio { num: ih as u64, den: ih as u64 });
    }
    assert(lay.off_y == 0);
}

} // verus!
