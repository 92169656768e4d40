//! The decoded bitmap, cropping, and resampling through the `image` crate.
use vstd::prelude::*;
use vstd::arithmetic::div_mod::lemma_fundamental_div_mod_converse;
use crate::viewport::Crop;

verus! {

/// An RGBA bitmap: `width * height` pixels of four bytes each, row by row.
#[derive(Debug)]
pub struct Image {
    pub width: u32,
    pub height: u32,
    pub pixels: Vec<u8>,
}

/// Byte offset of channel `c` of pixel `(x, y)` in a row-major RGBA buffer of width `w`.
pub open spec fn byte_at(w: int, x: int, y: int, c: int) -> int {
    (y * w + x) * 4 + c
}

/// The bytes of the `cw` by `ch` rectangle at `(x, y)` of an RGBA buffer of width `w`:
/// row after row, each row the `cw * 4` bytes that start at pixel `(x, y + row)`.
pub open spec fn crop_bytes(p: Seq<u8>, w: int, x: int, y: int, cw: int, ch: int) -> Seq<u8> {
    Seq::new((cw * ch * 4) as nat, |k: int| p[byte_at(w, x, y + k / (cw * 4), 0) + k % (cw * 4)])
}

/// Whether `p` can be the RGBA bytes that show `img` at `w` by `h` pixels: four bytes
/// per pixel of that size, and the image's own bytes when the size is its own.
pub open spec fn shown_as(img: &Image, w: u32, h: u32, p: Seq<u8>) -> bool {
    &&& p.len() == w as int * h as int * 4
    &&& (w == img.width && h == img.height ==> p == img.pixels@)
}

impl Image {
    /// At least one pixel each way, and four bytes per pixel.
    pub open spec fn wf(&self) -> bool {
        self.width >= 1 && self.height >= 1 && self.pixels@.len() == self.width * self.height * 4
    }

    /// An image from its size and RGBA bytes, or `None` when the sizes disagree or
    /// either side is zero.
    pub fn from_rgba(width: u32, height: u32, pixels: Vec<u8>) -> (r: Option<Image>)
        ensures
            r.is_some() <==> (width >= 1 && height >= 1 && pixels@.len() == width * height * 4),
            r.is_some() ==> r.unwrap().wf() && r.unwrap().width == width && r.unwrap().height == height
                && r.unwrap().pixels@ == pixels@,
    {
        if width == 0 || height == 0 {
            return None;
        }
        proof {
            assert(width as int * height as int <= u64::MAX) by (nonlinear_arith)
                requires width <= u32::MAX, height <= u32::MAX;
        }
        let n: u128 = (width as u64 * height as u64) as u128 * 4;
        if n != pixels.len() as u128 {
            return None;
        }
        Some(Image { width, height, pixels })
    }

    /// A copy with the same size and bytes.
    pub fn duplicate(&self) -> (r: Image)
        ensures
            r.width == self.width,
            r.height == self.height,
            r.pixels@ == self.pixels@,
    {
        let mut pixels: Vec<u8> = Vec::new();
        let mut i: usize = 0;
        while i < self.pixels.len()
            invariant
                i <= self.pixels@.len(),
                pixels@ == self.pixels@.subrange(0, i as int),
            decreases self.pixels@.len() - i,
        {
            pixels.push(self.pixels[i]);
            i += 1;
        }
        Image { width: self.width, height: self.height, pixels }
    }

    /// The pixels of rectangle `c`, as an image of its own.
    pub fn crop(&self, c: Crop) -> (r: Image)
        requires
            self.wf(),
            c.width >= 1,
            c.height >= 1,
            c.x + c.width <= self.width,
            c.y + c.height <= self.height,
        ensures
            r.wf(),
            r.width == c.width,
            r.height == c.height,
            r.pixels@ == crop_bytes(self.pixels@, self.width as int, c.x as int, c.y as int,
                c.width as int, c.height as int),
    {
        let ghost w = self.width as int;
        let ghost h = self.height as int;
        let ghost spec_out = crop_bytes(self.pixels@, w, c.x as int, c.y as int, c.width as int, c.height as int);
        let total: usize = self.pixels.len();
        proof {
            assert(c.width * 4 <= w * h * 4) by (nonlinear_arith)
                requires c.width <= w, h >= 1;
        }
        let row_len: usize = c.width as usize * 4;
        let mut out: Vec<u8> = Vec::new();
        let mut j: u32 = 0;
        while j < c.height
            invariant
                self.wf(),
                c.width >= 1,
                c.x + c.width <= self.width,
                c.y + c.height <= self.height,
                j <= c.height,
                total == self.pixels@.len(),
                row_len == c.width * 4,
                w == self.width,
                h == self.height,
                spec_out == crop_bytes(self.pixels@, w, c.x as int, c.y as int, c.width as int, c.height as int),
                out@.len() == j * row_len,
                forall|k: int| 0 <= k < out@.len() ==> out@[k] == spec_out[k],
            decreases c.height - j,
        {
            proof {
                assert((c.y + j) * w + c.x + c.width <= h * w) by (nonlinear_arith)
                    requires c.y + j + 1 <= h, c.x + c.width <= w;
                assert(((c.y + j) * w + c.x) * 4 + row_len <= self.pixels@.len()) by (nonlinear_arith)
                    requires (c.y + j) * w + c.x + c.width <= h * w, row_len == c.width * 4,
                        self.pixels@.len() == w * h * 4;
                assert((j + 1) * row_len <= spec_out.len()) by (nonlinear_arith)
                    requires j + 1 <= c.height, row_len == c.width * 4, spec_out.len() == c.width * c.height * 4;
                assert((j + 1) * row_len == j * row_len + row_len) by (nonlinear_arith);
                assert((c.y + j) * w <= (c.y + j) * w + c.x);
            }
            let start: usize = ((c.y + j) as usize * self.width as usize + c.x as usize) * 4;
            let mut i: usize = 0;
            while i < row_len
                invariant
                    self.wf(),
                    j < c.height,
                    c.width >= 1,
                    row_len == c.width * 4,
                    w == self.width,
                    i <= row_len,
                    total == self.pixels@.len(),
                    start == ((c.y + j) * w + c.x) * 4,
                    start + row_len <= self.pixels@.len(),
                    spec_out == crop_bytes(self.pixels@, w, c.x as int, c.y as int, c.width as int, c.height as int),
                    out@.len() == j * row_len + i,
                    (j + 1) * row_len <= spec_out.len(),
                    forall|k: int| 0 <= k < out@.len() ==> out@[k] == spec_out[k],
                decreases row_len - i,
            {
                proof {
                    let k = j * row_len + i;
                    lemma_fundamental_div_mod_converse(k, row_len as int, j as int, i as int);
                    assert(k < (j + 1) * row_len) by (nonlinear_arith)
                        requires k == j * row_len + i, i < row_len;
                    assert(byte_at(w, c.x as int, c.y + j, 0) == start);
                    assert(spec_out[k] == self.pixels@[start + i]);
                }
                out.push(self.pixels[start + i]);
                i += 1;
            }
            j += 1;
        }
        proof {
            assert(out@.len() == c.width * c.height * 4) by (nonlinear_arith)
                requires out@.len() == c.height * row_len, row_len == c.width * 4;
            assert(out@ =~= spec_out);
        }
        Image { width: c.width, height: c.height, pixels: out }
    }
}

/// Relies on `image::RgbaImage::from_raw`, which accepts a buffer of `width * height * 4`
/// bytes, and on `image::imageops::resize` with `FilterType::Lanczos3`, whose result is an
/// `nw` by `nh` RGBA buffer. Its bytes come from floating-point filter weights, so
/// nothing is stated of them.
#[verifier::external_body]
pub(crate) fn resample(img: &Image, nw: u32, nh: u32) -> (r: Vec<u8>)
    requires
        img.wf(),
        nw >= 1,
        nh >= 1,
        nw as int * nh as int * 16 <= usize::MAX,
        img.width as int * nh as int * 16 <= usize::MAX,
    ensures
        r@.len() == nw as int * nh as int * 4,
{
    let src = image::RgbaImage::from_raw(img.width, img.height, img.pixels.clone()).unwrap();
    image::imageops::resize(&src, nw, nh, image::imageops::FilterType::Lanczos3).into_raw()
}

} // verus!
