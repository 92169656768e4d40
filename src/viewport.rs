//! The viewport model: zoom and pan state, and the crop rectangle it selects.
use vstd::prelude::*;
use vstd::arithmetic::div_mod::{lemma_div_is_ordered, lemma_div_is_ordered_by_denominator, lemma_div_multiples_vanish};
use vstd::arithmetic::mul::{lemma_mul_inequality, lemma_mul_nonnegative};

verus! {

/// One whole unit (1.0) in the fixed-point scale used for zoom and pan.
pub const UNIT: u32 = 1_000_000;

/// The smallest zoom factor (0.1).
pub const ZOOM_MIN: u32 = 100_000;

/// The largest zoom factor (10.0).
pub const ZOOM_MAX: u32 = 10_000_000;

/// Tolerance (0.01) under which a zoom or pan value counts as its neutral value.
pub const NEAR: u32 = 10_000;

/// Zoom and pan. `zoom` is in millionths; `pan_x` and `pan_y` are fractions of the
/// image's width and height, in millionths, and are not clamped.
#[derive(Clone, Copy, Debug, PartialEq, Eq, Structural)]
pub struct Viewport {
    pub zoom: u32,
    pub pan_x: i64,
    pub pan_y: i64,
}

/// A rectangle of source pixels.
#[derive(Clone, Copy, Debug, PartialEq, Eq, Structural)]
pub struct Crop {
    pub x: u32,
    pub y: u32,
    pub width: u32,
    pub height: u32,
}

pub open spec fn near(a: int, b: int) -> bool {
    -(NEAR as int) < a - b < NEAR as int
}

pub open spec fn min(a: int, b: int) -> int {
    if a <= b { a } else { b }
}

pub open spec fn max(a: int, b: int) -> int {
    if a >= b { a } else { b }
}

pub open spec fn clamp(v: int, lo: int, hi: int) -> int {
    min(max(v, lo), hi)
}

/// Length of the view window along one axis: `max(1, len / zoom)`, rounded down.
pub open spec fn view_len(len: int, zoom: int) -> int {
    max(1, len * UNIT / zoom)
}

/// Start of the crop along one axis. The window is centred on
/// `len / 2 + pan * len` (in millionths of a pixel), the centre clamped into
/// `[0, len]`, and the start clamped so that the window stays inside the image.
pub open spec fn axis_start(len: int, zoom: int, pan: int) -> int {
    let view = view_len(len, zoom);
    let center = clamp(len * UNIT / 2 + pan * len, 0, len * UNIT);
    clamp(center - view * UNIT / 2, 0, (len - min(view, len)) * UNIT) / (UNIT as int)
}

/// Size of the crop along one axis.
pub open spec fn axis_size(len: int, zoom: int, pan: int) -> int {
    min(view_len(len, zoom), len - axis_start(len, zoom, pan))
}

pub open spec fn full_crop(w: int, h: int) -> Crop {
    Crop { x: 0, y: 0, width: w as u32, height: h as u32 }
}

impl Viewport {
    /// The zoom stays within `[ZOOM_MIN, ZOOM_MAX]`.
    pub open spec fn wf(&self) -> bool {
        ZOOM_MIN <= self.zoom <= ZOOM_MAX
    }

    /// Zoom 1.0 and no pan, each within the tolerance.
    pub open spec fn near_identity(&self) -> bool {
        near(self.zoom as int, UNIT as int) && near(self.pan_x as int, 0) && near(self.pan_y as int, 0)
    }

    /// The crop rectangle selected in an image of `w` by `h` pixels.
    pub open spec fn crop_of(&self, w: int, h: int) -> Crop {
        if self.near_identity() {
            full_crop(w, h)
        } else {
            let cw = axis_size(w, self.zoom as int, self.pan_x as int);
            let ch = axis_size(h, self.zoom as int, self.pan_y as int);
            if cw == 0 || ch == 0 {
                full_crop(w, h)
            } else {
                Crop {
                    x: axis_start(w, self.zoom as int, self.pan_x as int) as u32,
                    y: axis_start(h, self.zoom as int, self.pan_y as int) as u32,
                    width: cw as u32,
                    height: ch as u32,
                }
            }
        }
    }

    /// Zoom 1.0, no pan.
    pub fn identity() -> (r: Viewport)
        ensures
            r.wf(),
            r.zoom == UNIT,
            r.pan_x == 0,
            r.pan_y == 0,
    {
        Viewport { zoom: UNIT, pan_x: 0, pan_y: 0 }
    }

    /// Multiplies the zoom by 1.25 (rounded down), up to `ZOOM_MAX`.
    pub fn zoom_in(&mut self)
        requires
            old(self).wf(),
        ensures
            final(self).wf(),
            final(self).zoom == min(old(self).zoom * 5 / 4, ZOOM_MAX as int),
            final(self).pan_x == old(self).pan_x,
            final(self).pan_y == old(self).pan_y,
    {
        let z: u64 = self.zoom as u64 * 5 / 4;
        self.zoom = if z <= ZOOM_MAX as u64 { z as u32 } else { ZOOM_MAX };
    }

    /// Divides the zoom by 1.25 (rounded down), down to `ZOOM_MIN`.
    pub fn zoom_out(&mut self)
        requires
            old(self).wf(),
        ensures
            final(self).wf(),
            final(self).zoom == max(old(self).zoom * 4 / 5, ZOOM_MIN as int),
            final(self).pan_x == old(self).pan_x,
            final(self).pan_y == old(self).pan_y,
    {
        let z: u64 = self.zoom as u64 * 4 / 5;
        self.zoom = if z >= ZOOM_MIN as u64 { z as u32 } else { ZOOM_MIN };
    }

    /// Back to zoom 1.0 and no pan.
    pub fn zoom_reset(&mut self)
        ensures
            final(self).wf(),
            final(self).zoom == UNIT,
            final(self).pan_x == 0,
            final(self).pan_y == 0,
    {
        *self = Viewport::identity();
    }

    /// Adds `dx` and `dy` to the pan, saturating at the bounds of `i64`.
    pub fn pan(&mut self, dx: i64, dy: i64)
        ensures
            final(self).zoom == old(self).zoom,
            final(self).pan_x == clamp(old(self).pan_x + dx, i64::MIN as int, i64::MAX as int),
            final(self).pan_y == clamp(old(self).pan_y + dy, i64::MIN as int, i64::MAX as int),
    {
        self.pan_x = saturating_sum(self.pan_x, dx);
        self.pan_y = saturating_sum(self.pan_y, dy);
    }

    /// Whether zoom is 1.0 and there is no pan, each within the tolerance.
    pub fn is_near_identity(&self) -> (r: bool)
        ensures
            r == self.near_identity(),
    {
        let dz: i64 = self.zoom as i64 - UNIT as i64;
        -(NEAR as i64) < dz && dz < NEAR as i64
            && -(NEAR as i64) < self.pan_x && self.pan_x < NEAR as i64
            && -(NEAR as i64) < self.pan_y && self.pan_y < NEAR as i64
    }
}

fn saturating_sum(a: i64, b: i64) -> (r: i64)
    ensures
        r == clamp(a + b, i64::MIN as int, i64::MAX as int),
{
    let s: i128 = a as i128 + b as i128;
    if s > i64::MAX as i128 {
        i64::MAX
    } else if s < i64::MIN as i128 {
        i64::MIN
    } else {
        s as i64
    }
}

/// The crop start along one axis of length `len`.
fn crop_start(len: u32, zoom: u32, pan: i64) -> (r: u32)
    requires
        zoom >= ZOOM_MIN,
    ensures
        r == axis_start(len as int, zoom as int, pan as int),
        r as int + min(view_len(len as int, zoom as int), len as int) <= len,
{
    let unit: i128 = UNIT as i128;
    let l: i128 = len as i128;
    let v: u64 = len as u64 * UNIT as u64 / zoom as u64;
    let view: u64 = if v >= 1 { v } else { 1 };
    assert(view == view_len(len as int, zoom as int));
    let m: u64 = if view <= len as u64 { view } else { len as u64 };
    assert(0 <= pan as int * len as int <= i64::MAX as int * u32::MAX as int || i64::MIN as int * u32::MAX as int <= pan as int * len as int <= 0) by (nonlinear_arith);
    let c0: i128 = l * unit / 2 + pan as i128 * l;
    let c1: i128 = if c0 < 0 { 0 } else { c0 };
    let center: i128 = if c1 > l * unit { l * unit } else { c1 };
    let s0: i128 = center - view as i128 * unit / 2;
    let hi: i128 = (len as u64 - m) as i128 * unit;
    let s1: i128 = if s0 < 0 { 0 } else { s0 };
    let s2: i128 = if s1 > hi { hi } else { s1 };
    let r: u64 = s2 as u64 / UNIT as u64;
    proof {
        lemma_div_is_ordered(s2 as int, hi as int, UNIT as int);
        lemma_div_multiples_vanish((len - m) as int, UNIT as int);
    }
    r as u32
}

impl Viewport {
    /// The rectangle of source pixels that this viewport selects in an image of
    /// `w` by `h` pixels. Near the identity it is the whole image.
    pub fn compute_crop(&self, w: u32, h: u32) -> (r: Crop)
        requires
            self.wf(),
        ensures
            r == self.crop_of(w as int, h as int),
    {
        if self.is_near_identity() {
            return Crop { x: 0, y: 0, width: w, height: h };
        }
        let x = crop_start(w, self.zoom, self.pan_x);
        let y = crop_start(h, self.zoom, self.pan_y);
        let vw: u64 = w as u64 * UNIT as u64 / self.zoom as u64;
        let vh: u64 = h as u64 * UNIT as u64 / self.zoom as u64;
        let view_w: u64 = if vw >= 1 { vw } else { 1 };
        let view_h: u64 = if vh >= 1 { vh } else { 1 };
        let rest_w: u64 = (w - x) as u64;
        let rest_h: u64 = (h - y) as u64;
        let cw: u64 = if view_w <= rest_w { view_w } else { rest_w };
        let ch: u64 = if view_h <= rest_h { view_h } else { rest_h };
        if cw == 0 || ch == 0 {
            return Crop { x: 0, y: 0, width: w, height: h };
        }
        Crop { x, y, width: cw as u32, height: ch as u32 }
    }
}

pub open spec fn area(c: Crop) -> int {
    c.width as int * c.height as int
}

proof fn lemma_axis(len: int, zoom: int, pan: int)
    requires
        len >= 0,
        zoom >= 1,
    ensures
        0 <= axis_start(len, zoom, pan),
        axis_start(len, zoom, pan) + min(view_len(len, zoom), len) <= len,
        axis_size(len, zoom, pan) == min(view_len(len, zoom), len),
{
    let view = view_len(len, zoom);
    let center = clamp(len * UNIT / 2 + pan * len, 0, len * UNIT);
    let hi = (len - min(view, len)) * UNIT;
    lemma_mul_nonnegative(len - min(view, len), UNIT as int);
    let s = clamp(center - view * UNIT / 2, 0, hi);
    lemma_div_is_ordered(s, hi, UNIT as int);
    lemma_div_is_ordered(0, s, UNIT as int);
    lemma_div_multiples_vanish(len - min(view, len), UNIT as int);
}

/// At zoom 1.0 and no pan the crop is the whole image.
pub proof fn lemma_identity_is_full(v: Viewport, w: u32, h: u32)
    requires
        v.zoom == UNIT,
        v.pan_x == 0,
        v.pan_y == 0,
    ensures
        v.crop_of(w as int, h as int) == full_crop(w as int, h as int),
{
}

/// For every zoom in range and every pan, the crop of an image of at least one
/// pixel each way lies inside the image and is at least one pixel each way.
pub proof fn lemma_crop_within_image(v: Viewport, w: u32, h: u32)
    requires
        v.wf(),
        w >= 1,
        h >= 1,
    ensures
        v.crop_of(w as int, h as int).x + v.crop_of(w as int, h as int).width <= w,
        v.crop_of(w as int, h as int).y + v.crop_of(w as int, h as int).height <= h,
        v.crop_of(w as int, h as int).width >= 1,
        v.crop_of(w as int, h as int).height >= 1,
{
    lemma_axis(w as int, v.zoom as int, v.pan_x as int);
    lemma_axis(h as int, v.zoom as int, v.pan_y as int);
}

proof fn lemma_view_len_antitone(len: int, z1: int, z2: int)
    requires
        len >= 0,
        1 <= z1 <= z2,
    ensures
        view_len(len, z2) <= view_len(len, z1),
{
    lemma_mul_nonnegative(len, UNIT as int);
    lemma_div_is_ordered_by_denominator(len * UNIT, z1, z2);
}

/// With the pan held fixed, a larger zoom never selects a larger area.
pub proof fn lemma_zoom_shrinks_crop(v1: Viewport, v2: Viewport, w: u32, h: u32)
    requires
        v1.wf(),
        v2.wf(),
        v1.zoom <= v2.zoom,
        v1.pan_x == v2.pan_x,
        v1.pan_y == v2.pan_y,
        w >= 1,
        h >= 1,
    ensures
        area(v2.crop_of(w as int, h as int)) <= area(v1.crop_of(w as int, h as int)),
{
    let (z1, z2) = (v1.zoom as int, v2.zoom as int);
    lemma_axis(w as int, z1, v1.pan_x as int);
    lemma_axis(h as int, z1, v1.pan_y as int);
    lemma_axis(w as int, z2, v2.pan_x as int);
    lemma_axis(h as int, z2, v2.pan_y as int);
    lemma_view_len_antitone(w as int, z1, z2);
    lemma_view_len_antitone(h as int, z1, z2);
    let c1 = v1.crop_of(w as int, h as int);
    let c2 = v2.crop_of(w as int, h as int);
    if !v1.near_identity() && v2.near_identity() {
        // v1 is then zoomed out below 1.0, so its view covers the image.
        assert(w as int * UNIT / z1 >= w) by (nonlinear_arith)
            requires z1 <= UNIT, z1 >= 1, w >= 0;
        assert(h as int * UNIT / z1 >= h) by (nonlinear_arith)
            requires z1 <= UNIT, z1 >= 1, h >= 0;
    }
    assert(c2.width <= c1.width);
    assert(c2.height <= c1.height);
    lemma_mul_inequality(c2.width as int, c1.width as int, c2.height as int);
    lemma_mul_inequality(c2.height as int, c1.height as int, c1.width as int);
    assert(area(c2) <= area(c1)) by (nonlinear_arith)
        requires c2.width * c2.height <= c1.width * c2.height, c2.height * c1.width <= c1.height * c1.width;
}

} // verus!
