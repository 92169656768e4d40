//! The native-pixel renderer: fits an image into the terminal's pixel canvas
//! and frames it as graphics-protocol control commands.
use vstd::prelude::*;
use vstd::arithmetic::div_mod::lemma_fundamental_div_mod_converse;
use crate::bytes::{decimal, push_all, push_decimal, push_range};
use crate::raster::{Image, resample, shown_as};
use crate::viewport::{max, min};

verus! {

/// Encoded payload bytes carried by one control command.
pub const CHUNK: usize = 4096;

/// Opens a control command: `ESC _ G`.
pub open spec fn cmd_open() -> Seq<u8> {
    seq![0x1bu8, '_' as u8, 'G' as u8]
}

/// Closes a control command: `ESC \`.
pub open spec fn cmd_close() -> Seq<u8> {
    seq![0x1bu8, '\\' as u8]
}

/// The command that deletes every placed image: `a=d,d=A`, without payload.
pub open spec fn clear_command() -> Seq<u8> {
    cmd_open() + seq!['a' as u8, '=' as u8, 'd' as u8, ',' as u8, 'd' as u8, '=' as u8, 'A' as u8] + cmd_close()
}

/// The Base64 digit for the six-bit value `v`: `A`-`Z`, `a`-`z`, `0`-`9`, `+`, `/`.
pub open spec fn b64_digit(v: int) -> u8 {
    if v < 26 {
        (65 + v) as u8
    } else if v < 52 {
        (71 + v) as u8
    } else if v < 62 {
        (v - 4) as u8
    } else if v == 62 {
        43
    } else {
        47
    }
}

/// Standard Base64 with `=` padding: each group of three bytes, read as a 24-bit
/// number, becomes four digits; a final group of one or two bytes is padded with
/// zero bits and completed with `==` or `=`.
pub open spec fn base64_std(b: Seq<u8>) -> Seq<u8>
    decreases b.len(),
{
    if b.len() == 0 {
        Seq::empty()
    } else if b.len() == 1 {
        let n = b[0] as int * 65536;
        seq![b64_digit(n / 262144), b64_digit(n / 4096 % 64), '=' as u8, '=' as u8]
    } else if b.len() == 2 {
        let n = b[0] as int * 65536 + b[1] as int * 256;
        seq![b64_digit(n / 262144), b64_digit(n / 4096 % 64), b64_digit(n / 64 % 64), '=' as u8]
    } else {
        let n = b[0] as int * 65536 + b[1] as int * 256 + b[2] as int;
        seq![b64_digit(n / 262144), b64_digit(n / 4096 % 64), b64_digit(n / 64 % 64), b64_digit(n % 64)]
            + base64_std(b.subrange(3, b.len() as int))
    }
}

/// The encoding has four digits for each started group of three bytes.
pub proof fn lemma_base64_len(b: Seq<u8>)
    ensures
        base64_std(b).len() == 4 * ((b.len() + 2) / 3),
    decreases b.len(),
{
    if b.len() >= 3 {
        lemma_base64_len(b.subrange(3, b.len() as int));
    }
}

/// Relies on `base64::Engine::encode` of the `STANDARD` engine: the standard alphabet
/// with `=` padding; it panics only when the output length overflows.
#[verifier::external_body]
fn base64_encode(b: &Vec<u8>) -> (r: Vec<u8>)
    requires
        b@.len() <= usize::MAX / 2,
    ensures
        r@ == base64_std(b@),
{
    base64::Engine::encode(&base64::engine::general_purpose::STANDARD, b).into_bytes()
}

/// Number of commands for a payload of `n` encoded bytes.
pub open spec fn chunk_count(n: int) -> int {
    (n + CHUNK - 1) / (CHUNK as int)
}

/// The `i`-th chunk of the payload.
pub open spec fn chunk_of(p: Seq<u8>, i: int) -> Seq<u8> {
    p.subrange(i * CHUNK, min((i + 1) * CHUNK, p.len() as int))
}

/// `1` while more data follows, `0` on the last command.
pub open spec fn more_flag(i: int, count: int) -> u8 {
    if i + 1 == count { '0' as u8 } else { '1' as u8 }
}

/// Transmit-and-display parameters of the first command: RGBA format and the size.
pub open spec fn first_params(w: u32, h: u32) -> Seq<u8> {
    seq!['a' as u8, '=' as u8, 'T' as u8, ',' as u8, 'f' as u8, '=' as u8, '3' as u8, '2' as u8, ',' as u8, 's' as u8, '=' as u8] + decimal(w as nat)
        + seq![',' as u8, 'v' as u8, '=' as u8] + decimal(h as nat) + seq![',' as u8]
}

/// The `i`-th command that carries payload `p` of an image of `w` by `h` pixels.
pub open spec fn command(p: Seq<u8>, i: int, w: u32, h: u32) -> Seq<u8> {
    let params = if i == 0 { first_params(w, h) } else { Seq::empty() };
    cmd_open() + params + seq!['m' as u8, '=' as u8, more_flag(i, chunk_count(p.len() as int)), ';' as u8]
        + chunk_of(p, i) + cmd_close()
}

/// The command that deletes every placed image.
pub fn kitty_clear() -> (r: Vec<u8>)
    ensures
        r@ == clear_command(),
{
    let r: Vec<u8> = vec![0x1bu8, '_' as u8, 'G' as u8, 'a' as u8, '=' as u8, 'd' as u8, ',' as u8, 'd' as u8, '=' as u8, 'A' as u8, 0x1bu8, '\\' as u8];
    proof {
        assert(r@ =~= clear_command());
    }
    r
}

/// The control commands that transmit payload `p` of a `w` by `h` image, one per
/// chunk of `CHUNK` bytes, in order.
pub fn kitty_commands(p: &Vec<u8>, w: u32, h: u32) -> (r: Vec<Vec<u8>>)
    ensures
        r@.len() == chunk_count(p@.len() as int),
        forall|i: int| 0 <= i < r@.len() ==> (#[trigger] r@[i])@ == command(p@, i, w, h),
{
    let n: usize = p.len();
    let ghost count = chunk_count(n as int);
    let mut r: Vec<Vec<u8>> = Vec::new();
    let mut start: usize = 0;
    let mut i: usize = 0;
    while start < n
        invariant
            n == p@.len(),
            count == chunk_count(n as int),
            (start == i * CHUNK && start < n) || (start == n && i == count),
            r@.len() == i,
            forall|j: int| 0 <= j < i ==> (#[trigger] r@[j])@ == command(p@, j, w, h),
        decreases n - start,
    {
        let end: usize = if n - start > CHUNK { start + CHUNK } else { n };
        let last: bool = end == n;
        assert(last <==> i + 1 == count);
        let mut cmd: Vec<u8> = vec![0x1bu8, '_' as u8, 'G' as u8];
        if i == 0 {
            let a: Vec<u8> = vec!['a' as u8, '=' as u8, 'T' as u8, ',' as u8, 'f' as u8, '=' as u8, '3' as u8, '2' as u8, ',' as u8, 's' as u8, '=' as u8];
            push_all(&mut cmd, &a);
            push_decimal(&mut cmd, w);
            let b: Vec<u8> = vec![',' as u8, 'v' as u8, '=' as u8];
            push_all(&mut cmd, &b);
            push_decimal(&mut cmd, h);
            cmd.push(',' as u8);
        }
        cmd.push('m' as u8);
        cmd.push('=' as u8);
        cmd.push(if last { '0' as u8 } else { '1' as u8 });
        cmd.push(';' as u8);
        push_range(&mut cmd, p, start, end);
        cmd.push(0x1bu8);
        cmd.push('\\' as u8);
        proof {
            assert(cmd@ =~= command(p@, i as int, w, h));
        }
        r.push(cmd);
        i += 1;
        start = end;
    }
    r
}

/// A scale factor as a fraction `num / den`.
#[derive(Clone, Copy, Debug, PartialEq, Eq, Structural)]
pub struct Ratio {
    pub num: u64,
    pub den: u64,
}

/// The smaller of `aw / iw` and `ah / ih`: the largest scale at which an
/// `iw` by `ih` image fits an `aw` by `ah` canvas.
pub open spec fn fit_ratio(iw: int, ih: int, aw: int, ah: int) -> Ratio {
    if aw * ih <= ah * iw {
        Ratio { num: aw as u64, den: iw as u64 }
    } else {
        Ratio { num: ah as u64, den: ih as u64 }
    }
}

/// `len * s`, rounded to the nearest integer (halves up), and at least 1.
pub open spec fn scaled(len: int, s: Ratio) -> int {
    max(1, (2 * len * s.num + s.den) / (2 * s.den as int))
}

/// Whole cells needed for `px` pixels at `cell` pixels per cell.
pub open spec fn cells_for(px: int, cell: int) -> int {
    (px + cell - 1) / cell
}

/// Offset that centres `used` cells within `total`, or 0 when they do not fit.
pub open spec fn centre(total: int, used: int) -> int {
    if used <= total { (total - used) / 2 } else { 0 }
}

/// Where and at what size the native renderer places an image.
#[derive(Clone, Copy, Debug, PartialEq, Eq, Structural)]
pub struct NativeLayout {
    /// The uniform scale applied to both axes.
    pub scale: Ratio,
    /// Displayed width and height in pixels.
    pub width: u32,
    pub height: u32,
    /// Cell at which the image's top-left corner is placed.
    pub col: u16,
    pub row: u16,
}

/// The native scale: the fit ratio of the canvas, never above 1.
pub open spec fn native_scale(iw: int, ih: int, cols: int, rows: int, cw: int, ch: int) -> Ratio {
    let f = fit_ratio(iw, ih, cols * cw, rows * ch);
    if f.num <= f.den { f } else { Ratio { num: 1, den: 1 } }
}

pub open spec fn native_layout_of(iw: int, ih: int, cols: int, rows: int, cw: int, ch: int) -> NativeLayout {
    let s = native_scale(iw, ih, cols, rows, cw, ch);
    let w = scaled(iw, s);
    let h = scaled(ih, s);
    NativeLayout {
        scale: s,
        width: w as u32,
        height: h as u32,
        col: centre(cols, cells_for(w, cw)) as u16,
        row: centre(rows, cells_for(h, ch)) as u16,
    }
}

proof fn lemma_scaled_bounds(len: int, s: Ratio)
    requires
        len >= 1,
        s.den >= 1,
        s.num <= s.den,
    ensures
        1 <= scaled(len, s) <= len,
{
    let q = (2 * len * s.num + s.den) / (2 * s.den as int);
    assert(2 * len * s.num + s.den < (len + 1) * (2 * s.den as int)) by (nonlinear_arith)
        requires s.num <= s.den, s.den >= 1, len >= 1;
    assert(q <= len) by (nonlinear_arith)
        requires q == (2 * len * s.num + s.den) / (2 * s.den as int),
            2 * len * s.num + s.den < (len + 1) * (2 * s.den as int), s.den >= 1,
            2 * len * s.num + s.den >= 0;
}

/// A scale of exactly 1 keeps every length.
pub proof fn lemma_scaled_unit(len: int, s: Ratio)
    requires
        len >= 1,
        s.den >= 1,
        s.num == s.den,
    ensures
        scaled(len, s) == len,
{
    let d = s.den as int;
    assert(2 * len * d + d == len * (2 * d) + d) by (nonlinear_arith);
    lemma_fundamental_div_mod_converse(2 * len * d + d, 2 * d, len, d);
}

/// `len * s`, rounded, at least 1; for a scale of at most 1.
fn scale_len(len: u32, s: Ratio) -> (r: u32)
    requires
        len >= 1,
        s.den >= 1,
        s.num <= s.den,
        s.den <= u32::MAX as u64 * u32::MAX as u64,
    ensures
        r == scaled(len as int, s),
{
    proof {
        lemma_scaled_bounds(len as int, s);
        assert(2 * (len as int) * s.num + s.den <= u128::MAX) by (nonlinear_arith)
            requires len <= u32::MAX, s.num <= s.den, s.den <= u32::MAX as u64 * u32::MAX as u64;
    }
    let q: u128 = (2 * len as u128 * s.num as u128 + s.den as u128) / (2 * s.den as u128);
    if q >= 1 { q as u32 } else { 1 }
}

/// The scale, size and centred position of an `iw` by `ih` image on a canvas of
/// `cols` by `rows` cells of `cw` by `ch` pixels.
pub fn native_layout(iw: u32, ih: u32, cols: u16, rows: u16, cw: u16, ch: u16) -> (r: NativeLayout)
    requires
        iw >= 1,
        ih >= 1,
        cw >= 1,
        ch >= 1,
    ensures
        r == native_layout_of(iw as int, ih as int, cols as int, rows as int, cw as int, ch as int),
        1 <= r.width <= iw,
        1 <= r.height <= ih,
{
    proof {
        assert(cols as int * cw as int <= u32::MAX) by (nonlinear_arith) requires cols <= u16::MAX, cw <= u16::MAX;
        assert(rows as int * ch as int <= u32::MAX) by (nonlinear_arith) requires rows <= u16::MAX, ch <= u16::MAX;
    }
    let aw: u64 = cols as u64 * cw as u64;
    let ah: u64 = rows as u64 * ch as u64;
    proof {
        assert(aw * ih <= u64::MAX) by (nonlinear_arith) requires aw <= u32::MAX, ih <= u32::MAX;
        assert(ah * iw <= u64::MAX) by (nonlinear_arith) requires ah <= u32::MAX, iw <= u32::MAX;
    }
    let f: Ratio = if aw * ih as u64 <= ah * iw as u64 {
        Ratio { num: aw, den: iw as u64 }
    } else {
        Ratio { num: ah, den: ih as u64 }
    };
    let s: Ratio = if f.num <= f.den { f } else { Ratio { num: 1, den: 1 } };
    let w: u32 = scale_len(iw, s);
    let h: u32 = scale_len(ih, s);
    let wc: u64 = (w as u64 + cw as u64 - 1) / cw as u64;
    let hc: u64 = (h as u64 + ch as u64 - 1) / ch as u64;
    let col: u64 = if wc <= cols as u64 { (cols as u64 - wc) / 2 } else { 0 };
    let row: u64 = if hc <= rows as u64 { (rows as u64 - hc) / 2 } else { 0 };
    proof {
        lemma_scaled_bounds(iw as int, s);
        lemma_scaled_bounds(ih as int, s);
    }
    NativeLayout { scale: s, width: w, height: h, col: col as u16, row: row as u16 }
}

/// What the native renderer emits for one image: the cell to move the cursor to,
/// then the control commands in order.
pub struct NativeFrame {
    pub col: u16,
    pub row: u16,
    pub commands: Vec<Vec<u8>>,
}

/// Frames the RGBA bytes `pixels`, already at the size of `lay`: the cursor cell of
/// `lay`, then one command per chunk of their Base64 encoding.
pub fn frame_native(pixels: &Vec<u8>, lay: NativeLayout) -> (r: NativeFrame)
    requires
        pixels@.len() <= usize::MAX / 2,
    ensures
        r.col == lay.col,
        r.row == lay.row,
        r.commands@.len() == chunk_count(4 * ((pixels@.len() as int + 2) / 3)),
        forall|i: int| 0 <= i < r.commands@.len() ==> (#[trigger] r.commands@[i])@
            == command(base64_std(pixels@), i, lay.width, lay.height),
{
    let payload: Vec<u8> = base64_encode(pixels);
    proof {
        lemma_base64_len(pixels@);
    }
    let commands = kitty_commands(&payload, lay.width, lay.height);
    NativeFrame { col: lay.col, row: lay.row, commands }
}

/// Fits `img` into `cols` by `rows` cells of `cw` by `ch` pixels without upscaling,
/// centres it, and frames its RGBA bytes at that size as control commands. The bytes
/// are the image's own when the size is unchanged; otherwise they are resampled, and
/// all that is known of them is their number.
pub fn render_native(img: &Image, cols: u16, rows: u16, cw: u16, ch: u16) -> (r: NativeFrame)
    requires
        img.wf(),
        img.width * img.height * 16 <= isize::MAX,
        cw >= 1,
        ch >= 1,
    ensures
        ({
            let lay = native_layout_of(img.width as int, img.height as int, cols as int, rows as int,
                cw as int, ch as int);
            &&& r.col == lay.col
            &&& r.row == lay.row
            &&& r.commands@.len() == chunk_count(4 * ((lay.width * lay.height * 4 + 2) / 3))
            &&& exists|p: Seq<u8>| #[trigger] shown_as(img, lay.width, lay.height, p)
                && forall|i: int| 0 <= i < r.commands@.len() ==> (#[trigger] r.commands@[i])@
                    == command(base64_std(p), i, lay.width, lay.height)
        }),
{
    let lay = native_layout(img.width, img.height, cols, rows, cw, ch);
    proof {
        assert(lay.width * lay.height * 16 <= img.width * img.height * 16) by (nonlinear_arith)
            requires lay.width <= img.width, lay.height <= img.height;
        assert(img.width * lay.height * 16 <= img.width * img.height * 16) by (nonlinear_arith)
            requires lay.height <= img.height;
    }
    let pixels: Vec<u8> = if lay.width == img.width && lay.height == img.height {
        img.duplicate().pixels
    } else {
        resample(img, lay.width, lay.height)
    };
    let r = frame_native(&pixels, lay);
    proof {
        assert(shown_as(img, lay.width, lay.height, pixels@));
    }
    r
}

/// The native renderer applies one scale to both axes; that scale fits the image
/// into the canvas on each axis and never exceeds 1.
pub proof fn lemma_native_uniform_scale(iw: u32, ih: u32, cols: u16, rows: u16, cw: u16, ch: u16)
    requires
        iw >= 1,
        ih >= 1,
    ensures
        ({
            let lay = native_layout_of(iw as int, ih as int, cols as int, rows as int, cw as int, ch as int);
            let s = lay.scale;
            &&& lay.width == scaled(iw as int, s)
            &&& lay.height == scaled(ih as int, s)
            &&& 1 <= s.den
            &&& s.num <= s.den
            &&& s.num * iw <= cols as int * cw as int * s.den
            &&& s.num * ih <= rows as int * ch as int * s.den
        }),
{
    let aw = cols as int * cw as int;
    let ah = rows as int * ch as int;
    let f = fit_ratio(iw as int, ih as int, aw, ah);
    let lay = native_layout_of(iw as int, ih as int, cols as int, rows as int, cw as int, ch as int);
    assert(0 <= aw <= u32::MAX) by (nonlinear_arith) requires aw == cols as int * cw as int, cols <= u16::MAX, cw <= u16::MAX;
    assert(0 <= ah <= u32::MAX) by (nonlinear_arith) requires ah == rows as int * ch as int, rows <= u16::MAX, ch <= u16::MAX;
    assert(f.num * iw <= aw * f.den && f.num * ih <= ah * f.den) by (nonlinear_arith)
        requires f == fit_ratio(iw as int, ih as int, aw, ah), 0 <= aw <= u32::MAX, 0 <= ah <= u32::MAX;
    if f.num > f.den {
        assert(iw <= aw && ih <= ah) by (nonlinear_arith)
            requires f.num * iw <= aw * f.den, f.num * ih <= ah * f.den, f.num > f.den, f.den >= 1, iw >= 1, ih >= 1;
    }
    lemma_scaled_bounds(iw as int, lay.scale);
    lemma_scaled_bounds(ih as int, lay.scale);
}

/// An image that fits the canvas is shown at its own size, so `render_native` sends
/// the image's own bytes, each pixel row once and in order.
pub proof fn lemma_native_keeps_fitting_image(iw: u32, ih: u32, cols: u16, rows: u16, cw: u16, ch: u16)
    requires
        iw >= 1,
        ih >= 1,
        iw <= cols as int * cw as int,
        ih <= rows as int * ch as int,
    ensures
        native_layout_of(iw as int, ih as int, cols as int, rows as int, cw as int, ch as int).width == iw,
        native_layout_of(iw as int, ih as int, cols as int, rows as int, cw as int, ch as int).height == ih,
{
    let aw = cols as int * cw as int;
    let ah = rows as int * ch as int;
    let f = fit_ratio(iw as int, ih as int, aw, ah);
    let s = native_scale(iw as int, ih as int, cols as int, rows as int, cw as int, ch as int);
    assert(0 <= aw <= u32::MAX) by (nonlinear_arith) requires aw == cols as int * cw as int, cols <= u16::MAX, cw <= u16::MAX;
    assert(0 <= ah <= u32::MAX) by (nonlinear_arith) requires ah == rows as int * ch as int, rows <= u16::MAX, ch <= u16::MAX;
    assert(f.num >= f.den && f.den >= 1);
    if f.num > f.den {
        lemma_scaled_unit(iw as int, s);
        lemma_scaled_unit(ih as int, s);
    } else {
        lemma_scaled_unit(iw as int, f);
        lemma_scaled_unit(ih as int, f);
    }
}

/// A payload of exactly `k` chunks goes out as `k` commands, in order: the first
/// carries the image's size, every one but the last says that more data follows,
/// and the last says that none does.
pub proof fn lemma_chunk_framing(p: Seq<u8>, k: int, w: u32, h: u32)
    requires
        k >= 1,
        p.len() == CHUNK * k,
    ensures
        chunk_count(p.len() as int) == k,
        forall|i: int| 0 <= i < k ==> #[trigger] command(p, i, w, h) == cmd_open()
            + (if i == 0 { first_params(w, h) } else { Seq::empty() })
            + seq!['m' as u8, '=' as u8, if i == k - 1 { '0' as u8 } else { '1' as u8 }, ';' as u8]
            + p.subrange(i * CHUNK, (i + 1) * CHUNK) + cmd_close(),
{
    assert forall|i: int| 0 <= i < k implies #[trigger] command(p, i, w, h) == cmd_open()
        + (if i == 0 { first_params(w, h) } else { Seq::empty() })
        + seq!['m' as u8, '=' as u8, if i == k - 1 { '0' as u8 } else { '1' as u8 }, ';' as u8]
        + p.subrange(i * CHUNK, (i + 1) * CHUNK) + cmd_close() by {
        assert((i + 1) * CHUNK <= p.len());
        assert(chunk_of(p, i) == p.subrange(i * CHUNK, (i + 1) * CHUNK));
    }
}

} // verus!
