use termview::compose::{status_bar, help_box, BOX_H};
use termview::raster::Image;
use termview::viewer::ViewerState;
use termview::viewport::{Viewport, UNIT, ZOOM_MAX};

fn s(v: &[char]) -> String {
    v.iter().collect()
}

fn names(n: usize) -> Vec<String> {
    (0..n).map(|i| format!("img{}.png", i)).collect()
}

fn image(w: u32, h: u32) -> Image {
    let pixels: Vec<u8> = (0..w * h * 4).map(|i| (i % 251) as u8).collect();
    Image::from_rgba(w, h, pixels).unwrap()
}

#[test]
fn empty_directory_texts() {
    let st = ViewerState::new(Vec::new(), 0);
    assert_eq!(st.current_filename(), "(none)");
    assert_eq!(st.image_info(), "");
    assert_eq!(s(&st.status_right_text()), "0/0 | q:quit ?:help ");
    assert_eq!(st.error.as_deref(), Some("No images found in directory"));
    assert_eq!(st.pending_load(), None);
    let screen = st.compose(80, 24);
    assert!(s(&screen.status).ends_with("0/0 | q:quit ?:help "));
    let m = screen.message.unwrap();
    assert_eq!(s(&m.text), "No images found in directory");
    assert_eq!((m.col, m.row), (26, 11));
}

#[test]
fn zoom_in_once_then_clamps() {
    let mut st = ViewerState::new(names(1), 0);
    st.zoom_in();
    assert_eq!(st.viewport.zoom, 1_250_000);
    for _ in 0..19 {
        st.zoom_in();
    }
    assert_eq!(st.viewport.zoom, ZOOM_MAX);
    st.zoom_in();
    assert_eq!(st.viewport.zoom, ZOOM_MAX);
}

#[test]
fn next_wraps_to_first_and_prev_to_last() {
    let mut st = ViewerState::new(names(3), 2);
    st.next();
    assert_eq!(st.index, 0);
    st.prev();
    assert_eq!(st.index, 2);
    st.first();
    assert_eq!(st.index, 0);
    st.last();
    assert_eq!(st.index, 2);
}

#[test]
fn navigation_on_empty_list_does_nothing() {
    let mut st = ViewerState::new(Vec::new(), 0);
    st.next();
    st.prev();
    st.last();
    assert_eq!(st.index, 0);
    assert_eq!(st.current_filename(), "(none)");
}

#[test]
fn navigation_resets_view_and_asks_for_load() {
    let mut st = ViewerState::new(names(2), 0);
    assert_eq!(st.pending_load(), Some(0));
    st.load_result(Ok(image(4, 2)));
    assert_eq!(st.image_info(), "4x2");
    st.zoom_in();
    st.pan(50_000, 0);
    st.next();
    assert_eq!(st.viewport, Viewport::identity());
    assert!(st.current_image.is_none());
    assert_eq!(st.pending_load(), Some(1));
    assert_eq!(st.current_filename(), "img1.png");
}

#[test]
fn failed_load_shows_error() {
    let mut st = ViewerState::new(names(1), 0);
    st.load_result(Err("Failed to load img0.png: bad data".to_string()));
    assert_eq!(st.pending_load(), None);
    assert_eq!(st.image_info(), "");
    let screen = st.compose(40, 11);
    assert!(screen.view.is_none());
    let m = screen.message.unwrap();
    assert_eq!(s(&m.text), "Failed to load img0.png: bad data");
    assert_eq!((m.col, m.row), (3, 5));
    assert_eq!(screen.status_row, 10);
}

#[test]
fn status_bar_layout() {
    let mut st = ViewerState::new(names(3), 1);
    st.load_result(Ok(image(640, 480)));
    assert_eq!(s(&st.status_left_text()), " img1.png 640x480 ");
    st.zoom_in();
    assert_eq!(s(&st.status_left_text()), " img1.png 640x480  125%");
    assert_eq!(s(&st.status_right_text()), "2/3 | q:quit ?:help ");
    let screen = st.compose(50, 20);
    assert_eq!(s(&screen.status), " img1.png 640x480  125%       2/3 | q:quit ?:help ");
    assert_eq!(screen.status.len(), 50);
}

#[test]
fn status_bar_truncates_to_width() {
    let left: Vec<char> = "abcdefgh".chars().collect();
    let right: Vec<char> = "12345".chars().collect();
    assert_eq!(s(&status_bar(&left, &right, 10)), "abcdefgh12");
    assert_eq!(s(&status_bar(&left, &right, 5)), "abcde");
    assert_eq!(s(&status_bar(&left, &right, 15)), "abcdefgh  12345");
    assert_eq!(status_bar(&left, &right, 0).len(), 0);
}

#[test]
fn help_box_is_centred_and_framed() {
    let b = help_box(80, 23);
    assert_eq!((b.col, b.row), (20, 3));
    assert_eq!(b.lines.len(), BOX_H as usize);
    assert_eq!(s(&b.lines[0]), format!("┌{}┐", "─".repeat(38)));
    assert_eq!(s(&b.lines[15]), format!("└{}┘", "─".repeat(38)));
    assert_eq!(s(&b.lines[2]), format!("│{:<38}│", "  termview — Keyboard Shortcuts"));
    for l in &b.lines {
        assert_eq!(l.len(), 40);
    }
    let small = help_box(10, 5);
    assert_eq!((small.col, small.row), (0, 0));
}

#[test]
fn help_toggles_overlay() {
    let mut st = ViewerState::new(names(1), 0);
    assert!(st.compose(80, 24).help.is_none());
    st.toggle_help();
    let screen = st.compose(80, 24);
    let b = screen.help.unwrap();
    assert_eq!((b.col, b.row), (20, 3));
    st.toggle_help();
    assert!(!st.show_help);
}

#[test]
fn view_image_crops_by_viewport() {
    let mut st = ViewerState::new(names(1), 0);
    let img = image(4, 2);
    let src = img.pixels.clone();
    st.load_result(Ok(img));
    let whole = st.view_image().unwrap();
    assert_eq!((whole.width, whole.height), (4, 2));
    assert_eq!(whole.pixels, src);
    st.viewport = Viewport { zoom: 2 * UNIT, pan_x: 0, pan_y: 0 };
    let part = st.view_image().unwrap();
    assert_eq!((part.width, part.height), (2, 1));
    let expect: Vec<u8> = src[4..12].to_vec();
    assert_eq!(part.pixels, expect);
}
