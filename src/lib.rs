//! Terminal image viewing: viewport cropping, a native-pixel protocol renderer,
//! a half-block glyph renderer, frame composition and the viewer's state machine.
//!
//! Zoom and pan are fixed-point values in millionths (`1_000_000` stands for 1.0),
//! so that every computation here is exact integer arithmetic.
use vstd::prelude::*;

pub mod viewport;
pub mod raster;
pub mod bytes;
pub mod native;
pub mod halfblock;
pub mod text;
pub mod viewer;
pub mod compose;
pub mod files;
pub mod geometry;

verus! {

} // verus!
