//! Frame composition: the image area, the status bar on the last row, the error
//! message in place of a missing image, and the help overlay.
use vstd::prelude::*;
use crate::raster::Image;
use crate::text::{decimal_chars, fit_chars, fit_to, push_decimal_chars, push_prefix, push_spaces, push_str, spaces};
use crate::viewer::ViewerState;
use crate::viewport::{NEAR, UNIT, min};

verus! {

/// Width of the help box, borders included.
pub const BOX_W: u16 = 40;

/// Height of the help box: the help lines and two borders.
pub const BOX_H: u16 = 16;

/// ` <percent>%` when the zoom is more than the tolerance away from 1.0, else empty.
pub open spec fn zoom_label(zoom: u32) -> Seq<char> {
    if zoom > UNIT + NEAR || zoom + NEAR < UNIT {
        seq![' '] + decimal_chars(((zoom + 5000) / 10000) as nat) + seq!['%']
    } else {
        Seq::empty()
    }
}

/// Left part of the status bar: file name, image size and zoom label.
pub open spec fn status_left(name: Seq<char>, info: Seq<char>, zoom: u32) -> Seq<char> {
    seq![' '] + name + seq![' '] + info + seq![' '] + zoom_label(zoom)
}

/// `<index + 1>/<count>`, or `0/0` with no images.
pub open spec fn counter(index: int, count: int) -> Seq<char> {
    if count == 0 {
        seq!['0', '/', '0']
    } else {
        decimal_chars((index + 1) as nat) + seq!['/'] + decimal_chars(count as nat)
    }
}

/// The key hints after the counter.
pub open spec fn key_hints() -> Seq<char> {
    " | q:quit ?:help "@
}

/// Right part of the status bar: the counter and the key hints.
pub open spec fn status_right(index: int, count: int) -> Seq<char> {
    counter(index, count) + key_hints()
}

/// A status line of exactly `cols` characters: the left part, padding, then the
/// right part; when both do not fit, the right part is cut first, then the left.
pub open spec fn status_line(left: Seq<char>, right: Seq<char>, cols: int) -> Seq<char> {
    let l = min(left.len() as int, cols);
    let r = min(right.len() as int, cols - l);
    left.take(l) + spaces((cols - l - r) as nat) + right.take(r)
}

/// The lines of help text.
pub open spec fn help_text() -> Seq<Seq<char>> {
    seq![
        ""@,
        "  termview \u{2014} Keyboard Shortcuts"@,
        ""@,
        "  \u{2190} / h       Previous image"@,
        "  \u{2192} / l       Next image"@,
        "  Home / g    First image"@,
        "  End / G     Last image"@,
        "  + / =       Zoom in"@,
        "  - / _       Zoom out"@,
        "  0           Reset zoom"@,
        "  w/a/s/d     Pan (when zoomed)"@,
        "  ?           Toggle help"@,
        "  q / Esc     Quit"@,
        ""@,
    ]
}

/// A border line of the help box: `l`, a run of horizontal rules, `r`.
pub open spec fn border(l: char, r: char) -> Seq<char> {
    seq![l] + Seq::new((BOX_W - 2) as nat, |i: int| '\u{2500}') + seq![r]
}

/// The `i`-th line of the help box: the top border, a framed text line cut or
/// padded to the interior width, or the bottom border.
pub open spec fn box_line(i: int) -> Seq<char> {
    if i == 0 {
        border('\u{250c}', '\u{2510}')
    } else if i == BOX_H - 1 {
        border('\u{2514}', '\u{2518}')
    } else {
        seq!['\u{2502}'] + fit_to(help_text()[i - 1], (BOX_W - 2) as nat) + seq!['\u{2502}']
    }
}

/// Offset that centres `used` within `total`, or 0 when it does not fit.
pub open spec fn centred(total: int, used: int) -> int {
    if used <= total { (total - used) / 2 } else { 0 }
}

/// The help overlay: its top-left cell and its lines.
pub struct HelpBox {
    pub col: u16,
    pub row: u16,
    pub lines: Vec<Vec<char>>,
}

/// A message placed at a cell.
pub struct Message {
    pub col: u16,
    pub row: u16,
    pub text: Vec<char>,
}

/// One frame: the image area's height, the image to render into it or the message
/// to show instead, the status bar on the last row, and the help overlay.
pub struct Screen {
    pub image_rows: u16,
    pub view: Option<Image>,
    pub message: Option<Message>,
    pub status_row: u16,
    pub status: Vec<char>,
    pub help: Option<HelpBox>,
}

fn help_lines() -> (r: Vec<&'static str>)
    ensures
        r@.len() == BOX_H - 2,
        forall|i: int| 0 <= i < r@.len() ==> (#[trigger] r@[i])@ == help_text()[i],
{
    let r: Vec<&'static str> = vec![
        "",
        "  termview \u{2014} Keyboard Shortcuts",
        "",
        "  \u{2190} / h       Previous image",
        "  \u{2192} / l       Next image",
        "  Home / g    First image",
        "  End / G     Last image",
        "  + / =       Zoom in",
        "  - / _       Zoom out",
        "  0           Reset zoom",
        "  w/a/s/d     Pan (when zoomed)",
        "  ?           Toggle help",
        "  q / Esc     Quit",
        "",
    ];
    r
}

fn border_line(l: char, r: char) -> (out: Vec<char>)
    ensures
        out@ == border(l, r),
{
    let mut out: Vec<char> = vec![l];
    let mut i: u16 = 0;
    while i < BOX_W - 2
        invariant
            i <= BOX_W - 2,
            out@ == seq![l] + Seq::new(i as nat, |k: int| '\u{2500}'),
        decreases BOX_W - 2 - i,
    {
        out.push('\u{2500}');
        i += 1;
        proof {
            assert(out@ =~= seq![l] + Seq::new(i as nat, |k: int| '\u{2500}'));
        }
    }
    out.push(r);
    proof {
        assert(out@ =~= border(l, r));
    }
    out
}

/// The help box centred in an area of `cols` by `rows` cells.
pub fn help_box(cols: u16, rows: u16) -> (r: HelpBox)
    ensures
        r.col == centred(cols as int, BOX_W as int),
        r.row == centred(rows as int, BOX_H as int),
        r.lines@.len() == BOX_H,
        forall|i: int| 0 <= i < BOX_H ==> (#[trigger] r.lines@[i])@ == box_line(i),
{
    let text = help_lines();
    let mut lines: Vec<Vec<char>> = Vec::new();
    lines.push(border_line('\u{250c}', '\u{2510}'));
    let mut i: usize = 0;
    while i < text.len()
        invariant
            text@.len() == BOX_H - 2,
            forall|k: int| 0 <= k < text@.len() ==> (#[trigger] text@[k])@ == help_text()[k],
            i <= text@.len(),
            lines@.len() == i + 1,
            forall|k: int| 0 <= k < lines@.len() ==> (#[trigger] lines@[k])@ == box_line(k),
        decreases text@.len() - i,
    {
        let mut content: Vec<char> = Vec::new();
        push_str(&mut content, text[i]);
        let mut line: Vec<char> = vec!['\u{2502}'];
        let fitted = fit_chars(&content, (BOX_W - 2) as usize);
        push_prefix(&mut line, &fitted, fitted.len());
        line.push('\u{2502}');
        proof {
            assert(fitted@.take(fitted@.len() as int) =~= fitted@);
            assert(content@ =~= help_text()[i as int]);
            assert(line@ =~= box_line(i + 1));
        }
        lines.push(line);
        i += 1;
    }
    lines.push(border_line('\u{2514}', '\u{2518}'));
    let col: u16 = if BOX_W <= cols { (cols - BOX_W) / 2 } else { 0 };
    let row: u16 = if BOX_H <= rows { (rows - BOX_H) / 2 } else { 0 };
    HelpBox { col, row, lines }
}

/// The status line of `cols` characters from its two parts.
pub fn status_bar(left: &Vec<char>, right: &Vec<char>, cols: u16) -> (r: Vec<char>)
    ensures
        r@ == status_line(left@, right@, cols as int),
        r@.len() == cols,
{
    let l: usize = if left.len() <= cols as usize { left.len() } else { cols as usize };
    let rest: usize = cols as usize - l;
    let r: usize = if right.len() <= rest { right.len() } else { rest };
    let mut out: Vec<char> = Vec::new();
    push_prefix(&mut out, left, l);
    push_spaces(&mut out, rest - r);
    push_prefix(&mut out, right, r);
    out
}

impl ViewerState {
    /// The left part of the status bar for this state.
    pub fn status_left_text(&self) -> (r: Vec<char>)
        requires
            self.wf(),
        ensures
            r@ == status_left(self.current_filename_spec(), self.image_info_spec(), self.viewport.zoom),
    {
        let name = self.current_filename();
        let info = self.image_info();
        let mut out: Vec<char> = vec![' '];
        push_str(&mut out, name.as_str());
        out.push(' ');
        push_str(&mut out, info.as_str());
        out.push(' ');
        let z: u32 = self.viewport.zoom;
        if z > UNIT + NEAR || z + NEAR < UNIT {
            out.push(' ');
            push_decimal_chars(&mut out, ((z + 5000) / 10000) as u64);
            out.push('%');
        }
        proof {
            assert(out@ =~= status_left(self.current_filename_spec(), self.image_info_spec(), self.viewport.zoom));
        }
        out
    }

    /// The right part of the status bar for this state.
    pub fn status_right_text(&self) -> (r: Vec<char>)
        requires
            self.wf(),
        ensures
            r@ == status_right(self.index as int, self.names@.len() as int),
    {
        let mut out: Vec<char> = Vec::new();
        if self.names.len() == 0 {
            out.push('0');
            out.push('/');
            out.push('0');
        } else {
            push_decimal_chars(&mut out, self.index as u64 + 1);
            out.push('/');
            push_decimal_chars(&mut out, self.names.len() as u64);
        }
        push_str(&mut out, " | q:quit ?:help ");
        proof {
            assert(out@ =~= status_right(self.index as int, self.names@.len() as int));
        }
        out
    }

    /// The frame for a terminal of `cols` by `rows` cells: the last row is the
    /// status bar and the rows above it are the image area, which shows the
    /// viewport's part of the image, or the error centred when there is no image;
    /// the help box is centred over the image area when it is on.
    pub fn compose(&self, cols: u16, rows: u16) -> (r: Screen)
        requires
            self.wf(),
        ensures
            r.image_rows == (if rows >= 1 { rows - 1 } else { 0 }),
            r.status_row == r.image_rows,
            r.status@ == status_line(
                status_left(self.current_filename_spec(), self.image_info_spec(), self.viewport.zoom),
                status_right(self.index as int, self.names@.len() as int),
                cols as int,
            ),
            self.is_view(r.view),
            match r.message {
                None => r.view.is_some() || self.error.is_none(),
                Some(m) => r.view.is_none() && (self.error matches Some(e) && m.text@ == e@
                    && m.col == centred(cols as int, e@.len() as int) && m.row == r.image_rows / 2),
            },
            r.help.is_some() == self.show_help,
            r.help matches Some(h) ==> h.col == centred(cols as int, BOX_W as int)
                && h.row == centred(r.image_rows as int, BOX_H as int)
                && h.lines@.len() == BOX_H
                && forall|i: int| 0 <= i < BOX_H ==> (#[trigger] h.lines@[i])@ == box_line(i),
    {
        let image_rows: u16 = if rows >= 1 { rows - 1 } else { 0 };
        let view = self.view_image();
        let message: Option<Message> = if view.is_none() {
            match &self.error {
                Some(e) => {
                    let mut text: Vec<char> = Vec::new();
                    push_str(&mut text, e.as_str());
                    let col: u16 = if text.len() <= cols as usize { ((cols as usize - text.len()) / 2) as u16 } else { 0 };
                    Some(Message { col, row: image_rows / 2, text })
                },
                None => None,
            }
        } else {
            None
        };
        let left = self.status_left_text();
        let right = self.status_right_text();
        let status = status_bar(&left, &right, cols);
        let help: Option<HelpBox> = if self.show_help { Some(help_box(cols, image_rows)) } else { None };
        Screen { image_rows, view, message, status_row: image_rows, status, help }
    }
}

} // verus!
