//! The viewer's state: the image list, the current position, the decoded image or
//! the error in its place, the help flag and the viewport.
use vstd::prelude::*;
use vstd::string::StringExecFns;
use vstd::arithmetic::div_mod::{lemma_mod_self_0, lemma_small_mod};
use crate::raster::{Image, crop_bytes};
use crate::text::{append_decimal, decimal_chars};
use crate::viewport::{Crop, Viewport, UNIT};

verus! {

/// The message shown when there is nothing to browse.
pub open spec fn no_images_message() -> Seq<char> {
    "No images found in directory"@
}

/// `"(none)"`.
pub open spec fn no_name() -> Seq<char> {
    "(none)"@
}

/// The viewer's state. `names` holds the file names of the images, in browsing
/// order; loading one is the caller's work (see `pending_load` and `load_result`).
pub struct ViewerState {
    pub names: Vec<String>,
    pub index: usize,
    pub current_image: Option<Image>,
    pub error: Option<String>,
    pub show_help: bool,
    pub viewport: Viewport,
}

impl ViewerState {
    pub open spec fn wf(&self) -> bool {
        &&& self.viewport.wf()
        &&& self.names@.len() > 0 ==> self.index < self.names@.len()
        &&& self.current_image matches Some(img) ==> img.wf()
    }

    /// The state right after moving to an image: nothing loaded yet, no error but
    /// for an empty list, and the identity viewport.
    pub open spec fn reset(&self) -> bool {
        &&& self.current_image.is_none()
        &&& self.viewport == Viewport { zoom: UNIT, pan_x: 0, pan_y: 0 }
        &&& if self.names@.len() == 0 {
            self.error matches Some(e) && e@ == no_images_message()
        } else {
            self.error.is_none()
        }
    }

    /// Clears the image and the error and resets the viewport, ready for the
    /// current image to be loaded; with no images, sets the matching error.
    fn begin_load(&mut self)
        requires
            old(self).names@.len() > 0 ==> old(self).index < old(self).names@.len(),
        ensures
            final(self).wf(),
            final(self).reset(),
            final(self).names == old(self).names,
            final(self).index == old(self).index,
            final(self).show_help == old(self).show_help,
    {
        self.current_image = None;
        self.viewport = Viewport::identity();
        if self.names.len() == 0 {
            self.error = Some(String::from_str("No images found in directory"));
        } else {
            self.error = None;
        }
    }

    /// A viewer over `names`, positioned at `start_index`.
    pub fn new(names: Vec<String>, start_index: usize) -> (r: ViewerState)
        requires
            names@.len() == 0 || start_index < names@.len(),
        ensures
            r.wf(),
            r.reset(),
            r.names@ == names@,
            r.index == start_index,
            !r.show_help,
    {
        let mut r = ViewerState {
            names,
            index: start_index,
            current_image: None,
            error: None,
            show_help: false,
            viewport: Viewport::identity(),
        };
        r.begin_load();
        r
    }

    /// The index of the image that is to be loaded now, if any.
    pub fn pending_load(&self) -> (r: Option<usize>)
        ensures
            r == (if self.names@.len() > 0 && self.current_image.is_none() && self.error.is_none() {
                Some(self.index)
            } else {
                None::<usize>
            }),
    {
        if self.names.len() > 0 && self.current_image.is_none() && self.error.is_none() {
            Some(self.index)
        } else {
            None
        }
    }

    /// Records the outcome of loading the current image: the image, or the message
    /// that says why it could not be loaded.
    pub fn load_result(&mut self, r: Result<Image, String>)
        requires
            old(self).wf(),
            r matches Ok(img) ==> img.wf(),
        ensures
            final(self).wf(),
            final(self).names == old(self).names,
            final(self).index == old(self).index,
            final(self).show_help == old(self).show_help,
            final(self).viewport == old(self).viewport,
            match r {
                Ok(img) => final(self).current_image == Some(img) && final(self).error.is_none(),
                Err(e) => final(self).current_image.is_none() && final(self).error == Some(e),
            },
    {
        match r {
            Ok(img) => {
                self.current_image = Some(img);
                self.error = None;
            },
            Err(e) => {
                self.current_image = None;
                self.error = Some(e);
            },
        }
    }

    /// Moves to the next image, from the last one back to the first.
    pub fn next(&mut self)
        requires
            old(self).wf(),
        ensures
            final(self).wf(),
            final(self).names == old(self).names,
            final(self).show_help == old(self).show_help,
            old(self).names@.len() == 0 ==> *final(self) == *old(self),
            old(self).names@.len() > 0 ==> final(self).reset()
                && final(self).index == (old(self).index + 1) % (old(self).names@.len() as int),
    {
        if self.names.len() > 0 {
            proof {
                let n = self.names@.len() as int;
                if self.index + 1 < n {
                    lemma_small_mod((self.index + 1) as nat, n as nat);
                } else {
                    lemma_mod_self_0(n);
                }
            }
            self.index = if self.index + 1 < self.names.len() { self.index + 1 } else { 0 };
            self.begin_load();
        }
    }

    /// Moves to the previous image, from the first one round to the last.
    pub fn prev(&mut self)
        requires
            old(self).wf(),
        ensures
            final(self).wf(),
            final(self).names == old(self).names,
            final(self).show_help == old(self).show_help,
            old(self).names@.len() == 0 ==> *final(self) == *old(self),
            old(self).names@.len() > 0 ==> final(self).reset()
                && final(self).index == if old(self).index == 0 {
                    old(self).names@.len() - 1
                } else {
                    old(self).index - 1
                },
    {
        if self.names.len() > 0 {
            self.index = if self.index == 0 { self.names.len() - 1 } else { self.index - 1 };
            self.begin_load();
        }
    }

    /// Moves to the first image.
    pub fn first(&mut self)
        requires
            old(self).wf(),
        ensures
            final(self).wf(),
            final(self).names == old(self).names,
            final(self).show_help == old(self).show_help,
            old(self).names@.len() == 0 ==> *final(self) == *old(self),
            old(self).names@.len() > 0 ==> final(self).reset() && final(self).index == 0,
    {
        if self.names.len() > 0 {
            self.index = 0;
            self.begin_load();
        }
    }

    /// Moves to the last image.
    pub fn last(&mut self)
        requires
            old(self).wf(),
        ensures
            final(self).wf(),
            final(self).names == old(self).names,
            final(self).show_help == old(self).show_help,
            old(self).names@.len() == 0 ==> *final(self) == *old(self),
            old(self).names@.len() > 0 ==> final(self).reset()
                && final(self).index == old(self).names@.len() - 1,
    {
        if self.names.len() > 0 {
            self.index = self.names.len() - 1;
            self.begin_load();
        }
    }

    /// Zooms in by 1.25, up to the maximum.
    pub fn zoom_in(&mut self)
        requires
            old(self).wf(),
        ensures
            final(self).wf(),
            final(self).viewport.zoom == crate::viewport::min(old(self).viewport.zoom * 5 / 4,
                crate::viewport::ZOOM_MAX as int),
            final(self).viewport.pan_x == old(self).viewport.pan_x,
            final(self).viewport.pan_y == old(self).viewport.pan_y,
            final(self).names == old(self).names,
            final(self).index == old(self).index,
            final(self).current_image == old(self).current_image,
            final(self).error == old(self).error,
            final(self).show_help == old(self).show_help,
    {
        self.viewport.zoom_in();
    }

    /// Zooms out by 1.25, down to the minimum.
    pub fn zoom_out(&mut self)
        requires
            old(self).wf(),
        ensures
            final(self).wf(),
            final(self).viewport.zoom == crate::viewport::max(old(self).viewport.zoom * 4 / 5,
                crate::viewport::ZOOM_MIN as int),
            final(self).viewport.pan_x == old(self).viewport.pan_x,
            final(self).viewport.pan_y == old(self).viewport.pan_y,
            final(self).names == old(self).names,
            final(self).index == old(self).index,
            final(self).current_image == old(self).current_image,
            final(self).error == old(self).error,
            final(self).show_help == old(self).show_help,
    {
        self.viewport.zoom_out();
    }

    /// Back to zoom 1.0 and no pan.
    pub fn zoom_reset(&mut self)
        requires
            old(self).wf(),
        ensures
            final(self).wf(),
            final(self).viewport == (Viewport { zoom: UNIT, pan_x: 0, pan_y: 0 }),
            final(self).names == old(self).names,
            final(self).index == old(self).index,
            final(self).current_image == old(self).current_image,
            final(self).error == old(self).error,
            final(self).show_help == old(self).show_help,
    {
        self.viewport.zoom_reset();
    }

    /// Moves the view by `dx` and `dy` (fractions of the image, in millionths).
    pub fn pan(&mut self, dx: i64, dy: i64)
        requires
            old(self).wf(),
        ensures
            final(self).wf(),
            final(self).viewport.zoom == old(self).viewport.zoom,
            final(self).viewport.pan_x == crate::viewport::clamp(old(self).viewport.pan_x + dx,
                i64::MIN as int, i64::MAX as int),
            final(self).viewport.pan_y == crate::viewport::clamp(old(self).viewport.pan_y + dy,
                i64::MIN as int, i64::MAX as int),
            final(self).names == old(self).names,
            final(self).index == old(self).index,
            final(self).current_image == old(self).current_image,
            final(self).error == old(self).error,
            final(self).show_help == old(self).show_help,
    {
        self.viewport.pan(dx, dy);
    }

    /// Shows or hides the help overlay.
    pub fn toggle_help(&mut self)
        requires
            old(self).wf(),
        ensures
            final(self).wf(),
            final(self).show_help == !old(self).show_help,
            final(self).names == old(self).names,
            final(self).index == old(self).index,
            final(self).current_image == old(self).current_image,
            final(self).error == old(self).error,
            final(self).viewport == old(self).viewport,
    {
        self.show_help = !self.show_help;
    }

    /// Whether `r` is what the viewport selects of the loaded image: nothing when
    /// no image is loaded, else the pixels of the viewport's crop rectangle.
    pub open spec fn is_view(&self, r: Option<Image>) -> bool {
        match self.current_image {
            None => r.is_none(),
            Some(img) => r matches Some(v) && v.wf() && ({
                let c = self.viewport.crop_of(img.width as int, img.height as int);
                &&& v.width == c.width
                &&& v.height == c.height
                &&& v.pixels@ == crop_bytes(img.pixels@, img.width as int, c.x as int, c.y as int,
                    c.width as int, c.height as int)
            }),
        }
    }

    /// The current file name, or `"(none)"` when there are no images.
    pub open spec fn current_filename_spec(&self) -> Seq<char> {
        if self.names@.len() == 0 { no_name() } else { self.names@[self.index as int]@ }
    }

    /// `"<width>x<height>"` of the loaded image, or empty when none is loaded.
    pub open spec fn image_info_spec(&self) -> Seq<char> {
        match self.current_image {
            Some(img) => decimal_chars(img.width as nat) + seq!['x'] + decimal_chars(img.height as nat),
            None => Seq::empty(),
        }
    }

    /// The current file name, or `"(none)"` when there are no images.
    pub fn current_filename(&self) -> (r: String)
        requires
            self.wf(),
        ensures
            r@ == self.current_filename_spec(),
    {
        if self.names.len() == 0 {
            String::from_str("(none)")
        } else {
            self.names[self.index].clone()
        }
    }

    /// `"<width>x<height>"` of the loaded image, or `""` when none is loaded.
    pub fn image_info(&self) -> (r: String)
        ensures
            r@ == self.image_info_spec(),
    {
        let mut s = String::new();
        if let Some(img) = &self.current_image {
            append_decimal(&mut s, img.width as u64);
            proof {
                reveal_strlit("x");
            }
            s.append("x");
            append_decimal(&mut s, img.height as u64);
        }
        s
    }

    /// The part of the loaded image that the viewport selects.
    pub fn view_image(&self) -> (r: Option<Image>)
        requires
            self.wf(),
        ensures
            self.is_view(r),
    {
        match &self.current_image {
            None => None,
            Some(img) => {
                let c: Crop = self.viewport.compute_crop(img.width, img.height);
                proof {
                    crate::viewport::lemma_crop_within_image(self.viewport, img.width, img.height);
                }
                Some(img.crop(c))
            },
        }
    }
}

} // verus!
