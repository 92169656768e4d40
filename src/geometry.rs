//! Pixel size of one terminal cell, from what the terminal reports.
use vstd::prelude::*;

verus! {

/// What the terminal reports of its size: cells and pixels each way.
#[derive(Clone, Copy, Debug, PartialEq, Eq, Structural)]
pub struct WindowSize {
    pub rows: u16,
    pub cols: u16,
    pub x_pixels: u16,
    pub y_pixels: u16,
}

/// The cell size assumed when the terminal reports none: 8 by 16 pixels.
pub open spec fn fallback_cell() -> (u16, u16) {
    (8, 16)
}

/// The cell size from a report: pixels divided by cells on each axis, when all
/// four numbers and both quotients are positive; otherwise the fallback.
pub open spec fn cell_size_of(ws: Option<WindowSize>) -> (u16, u16) {
    match ws {
        Some(w) => if w.x_pixels > 0 && w.y_pixels > 0 && w.cols > 0 && w.rows > 0
            && w.x_pixels / w.cols > 0 && w.y_pixels / w.rows > 0 {
            ((w.x_pixels / w.cols) as u16, (w.y_pixels / w.rows) as u16)
        } else {
            fallback_cell()
        },
        None => fallback_cell(),
    }
}

/// The pixel size of one cell, from the terminal's report if there is one.
pub fn cell_size(ws: Option<WindowSize>) -> (r: (u16, u16))
    ensures
        r == cell_size_of(ws),
        r.0 >= 1,
        r.1 >= 1,
{
    if let Some(w) = ws {
        if w.x_pixels > 0 && w.y_pixels > 0 && w.cols > 0 && w.rows > 0 {
            let cw: u16 = w.x_pixels / w.cols;
            let ch: u16 = w.y_pixels / w.rows;
            if cw > 0 && ch > 0 {
                return (cw, ch);
            }
        }
    }
    (8, 16)
}

/// The two ways of drawing an image: native pixels through the graphics protocol,
/// or coloured half-block glyphs.
#[derive(Clone, Copy, Debug, PartialEq, Eq, Structural)]
pub enum Backend {
    Native,
    HalfBlock,
}

/// Whether the terminal reports the pixel size of its window, which terminals that
/// take native pixels do.
pub open spec fn reports_pixels(ws: Option<WindowSize>) -> bool {
    ws matches Some(w) && w.x_pixels > 0 && w.y_pixels > 0
}

/// The backend for a terminal: native pixels where the terminal reports its pixel
/// size, half-block glyphs otherwise.
pub fn choose_backend(ws: Option<WindowSize>) -> (r: Backend)
    ensures
        r == (if reports_pixels(ws) { Backend::Native } else { Backend::HalfBlock }),
{
    match ws {
        Some(w) => if w.x_pixels > 0 && w.y_pixels > 0 { Backend::Native } else { Backend::HalfBlock },
        None => Backend::HalfBlock,
    }
}

} // verus!
