use termview::files::{is_image_file, sorted_order};
use base64::Engine;
use termview::geometry::{cell_size, choose_backend, Backend, WindowSize};
use termview::halfblock::{half_layout, halfblock_grid, render_halfblock, HalfCell, HalfLayout, Rgb};
use termview::native::{Ratio, frame_native, kitty_clear, kitty_commands, native_layout, render_native};
use termview::raster::Image;

fn image(w: u32, h: u32) -> Image {
    let pixels: Vec<u8> = (0..w * h * 4).map(|i| (i * 7 % 256) as u8).collect();
    Image::from_rgba(w, h, pixels).unwrap()
}

fn rgb(img: &Image, x: u32, y: u32) -> Rgb {
    let i = ((y * img.width + x) * 4) as usize;
    Rgb { r: img.pixels[i], g: img.pixels[i + 1], b: img.pixels[i + 2] }
}

#[test]
fn clear_command_bytes() {
    assert_eq!(kitty_clear(), b"\x1b_Ga=d,d=A\x1b\\".to_vec());
}

#[test]
fn image_that_fits_is_not_upscaled() {
    let lay = native_layout(100, 50, 80, 24, 8, 16);
    assert_eq!((lay.width, lay.height), (100, 50));
    assert_eq!((lay.col, lay.row), (33, 10));
    assert!(lay.scale.num <= lay.scale.den);
}

#[test]
fn large_image_scales_uniformly() {
    let lay = native_layout(1000, 500, 80, 24, 8, 16);
    assert_eq!((lay.scale.num, lay.scale.den), (640, 1000));
    assert_eq!((lay.width, lay.height), (640, 320));
    assert_eq!((lay.col, lay.row), (0, 2));
    let tall = native_layout(300, 1000, 10, 10, 10, 20);
    assert_eq!((tall.scale.num, tall.scale.den), (200, 1000));
    assert_eq!((tall.width, tall.height), (60, 200));
}

#[test]
fn rounding_and_floor_of_one() {
    let lay = native_layout(3, 1000, 1, 1, 1, 1);
    assert_eq!((lay.width, lay.height), (1, 1));
    let lay = native_layout(5, 2, 2, 1, 1, 1);
    assert_eq!((lay.width, lay.height), (2, 1));
}

#[test]
fn small_image_single_command() {
    let img = Image::from_rgba(2, 1, vec![255, 0, 0, 255, 0, 255, 0, 255]).unwrap();
    let f = render_native(&img, 10, 5, 8, 16);
    assert_eq!((f.col, f.row), (4, 2));
    assert_eq!(f.commands.len(), 1);
    assert_eq!(f.commands[0], b"\x1b_Ga=T,f=32,s=2,v=1,m=0;/wAA/wD/AP8=\x1b\\".to_vec());
}

#[test]
fn resampled_image_declares_new_size() {
    let img = image(20, 20);
    let f = render_native(&img, 1, 1, 8, 16);
    assert_eq!(f.commands.len(), 1);
    let head = b"\x1b_Ga=T,f=32,s=8,v=8,m=0;";
    assert!(f.commands[0].starts_with(head));
    // 8 * 8 RGBA pixels encode to 344 bytes.
    assert_eq!(f.commands[0].len(), head.len() + 344 + 2);
}

#[test]
fn chunks_of_exact_multiple() {
    let payload: Vec<u8> = (0..4096 * 3).map(|i| b"ABCD"[i % 4]).collect();
    let cmds = kitty_commands(&payload, 64, 48);
    assert_eq!(cmds.len(), 3);
    let first = b"\x1b_Ga=T,f=32,s=64,v=48,m=1;";
    assert!(cmds[0].starts_with(first));
    assert_eq!(cmds[0].len(), first.len() + 4096 + 2);
    assert!(cmds[1].starts_with(b"\x1b_Gm=1;"));
    assert!(cmds[2].starts_with(b"\x1b_Gm=0;"));
    assert!(cmds[2].ends_with(b"\x1b\\"));
    let mut joined = Vec::new();
    for (i, c) in cmds.iter().enumerate() {
        let start = if i == 0 { first.len() } else { 7 };
        joined.extend_from_slice(&c[start..c.len() - 2]);
    }
    assert_eq!(joined, payload);
}

#[test]
fn chunks_with_short_tail() {
    let payload = vec![b'Q'; 4097];
    let cmds = kitty_commands(&payload, 1, 1);
    assert_eq!(cmds.len(), 2);
    assert_eq!(cmds[1], b"\x1b_Gm=0;Q\x1b\\".to_vec());
    assert!(kitty_commands(&Vec::new(), 1, 1).is_empty());
}

#[test]
fn halfblock_packs_two_rows_per_cell() {
    let img = image(3, 4);
    let grid = render_halfblock(&img, 3, 2);
    assert_eq!(grid.len(), 2);
    let mut seen = vec![0; 4];
    for (row, line) in grid.iter().enumerate() {
        assert_eq!(line.len(), 3);
        for (col, cell) in line.iter().enumerate() {
            let (x, top, bottom) = (col as u32, 2 * row as u32, 2 * row as u32 + 1);
            assert_eq!(*cell, HalfCell::Upper { fg: rgb(&img, x, top), bg: rgb(&img, x, bottom) });
            if col == 0 {
                seen[top as usize] += 1;
                seen[bottom as usize] += 1;
            }
        }
    }
    assert_eq!(seen, vec![1, 1, 1, 1]);
}

#[test]
fn halfblock_pads_with_fill_and_blank() {
    let img = image(1, 1);
    let black = Rgb { r: 0, g: 0, b: 0 };
    let g = render_halfblock(&img, 1, 1);
    assert_eq!(g, vec![vec![HalfCell::Upper { fg: rgb(&img, 0, 0), bg: black }]]);
    let g = render_halfblock(&img, 1, 2);
    assert_eq!(g[0][0], HalfCell::Upper { fg: black, bg: rgb(&img, 0, 0) });
    assert_eq!(g[1][0], HalfCell::Blank);
    let g = render_halfblock(&img, 3, 1);
    assert_eq!(g[0].len(), 3);
    assert_eq!(g[0][2], HalfCell::Blank);
    assert!(render_halfblock(&img, 0, 2).iter().all(|l| l.is_empty()));
}

#[test]
fn halfblock_downscales_wide_image() {
    let img = image(8, 2);
    let g = render_halfblock(&img, 4, 4);
    // scale 1/2: 4 by 1 pixels, centred at pixel row 3 of 8.
    assert_eq!(g.len(), 4);
    assert!(g[0].iter().all(|c| *c == HalfCell::Blank));
    assert!(g[1].iter().all(|c| matches!(c, HalfCell::Upper { fg, .. } if *fg == Rgb { r: 0, g: 0, b: 0 })));
    assert!(g[3].iter().all(|c| *c == HalfCell::Blank));
}

#[test]
fn image_extensions() {
    assert!(is_image_file("photo.png"));
    assert!(is_image_file("Photo.JPEG"));
    assert!(is_image_file("scan.Tif"));
    assert!(is_image_file("a.b.webp"));
    assert!(!is_image_file("notes.txt"));
    assert!(!is_image_file("archive.png.gz"));
    assert!(!is_image_file(".png"));
    assert!(!is_image_file("png"));
    assert!(!is_image_file("image."));
    assert!(!is_image_file(""));
}

#[test]
fn cell_size_from_report() {
    assert_eq!(cell_size(None), (8, 16));
    let ws = WindowSize { rows: 24, cols: 80, x_pixels: 1600, y_pixels: 768 };
    assert_eq!(cell_size(Some(ws)), (20, 32));
    let zero = WindowSize { rows: 24, cols: 80, x_pixels: 0, y_pixels: 0 };
    assert_eq!(cell_size(Some(zero)), (8, 16));
    let tiny = WindowSize { rows: 24, cols: 80, x_pixels: 40, y_pixels: 768 };
    assert_eq!(cell_size(Some(tiny)), (8, 16));
}

#[test]
fn from_rgba_checks_size() {
    assert!(Image::from_rgba(2, 2, vec![0; 16]).is_some());
    assert!(Image::from_rgba(2, 2, vec![0; 15]).is_none());
    assert!(Image::from_rgba(0, 2, Vec::new()).is_none());
}

#[test]
fn browse_order_ignores_ascii_case() {
    let names: Vec<String> = ["b.png", "A.png", "a.png", "C.jpg", "_x.png", "ä.png"]
        .iter()
        .map(|s| s.to_string())
        .collect();
    let order = sorted_order(&names);
    let sorted: Vec<&str> = order.iter().map(|&i| names[i].as_str()).collect();
    assert_eq!(sorted, vec!["_x.png", "A.png", "a.png", "b.png", "C.jpg", "ä.png"]);
    assert!(sorted_order(&Vec::new()).is_empty());
}

fn payload_of(cmds: &[Vec<u8>]) -> Vec<u8> {
    let mut joined = Vec::new();
    for c in cmds {
        let start = c.iter().position(|&b| b == b';').unwrap() + 1;
        joined.extend_from_slice(&c[start..c.len() - 2]);
    }
    joined
}

#[test]
fn frame_native_encodes_given_bytes() {
    let lay = native_layout(5, 1, 10, 5, 8, 16);
    let f = frame_native(&b"hello".to_vec(), lay);
    assert_eq!((f.col, f.row), (lay.col, lay.row));
    assert_eq!(f.commands, vec![b"\x1b_Ga=T,f=32,s=5,v=1,m=0;aGVsbG8=\x1b\\".to_vec()]);
    let f = frame_native(&b"hi".to_vec(), lay);
    assert_eq!(payload_of(&f.commands), b"aGk=".to_vec());
    let f = frame_native(&b"abc".to_vec(), lay);
    assert_eq!(payload_of(&f.commands), b"YWJj".to_vec());
}

#[test]
fn fitting_image_sends_one_command() {
    let img = image(32, 24);
    let f = render_native(&img, 80, 24, 8, 16);
    assert_eq!((f.col, f.row), (38, 11));
    assert_eq!(f.commands.len(), 1);
    let head = b"\x1b_Ga=T,f=32,s=32,v=24,m=0;";
    assert!(f.commands[0].starts_with(head));
    assert_eq!(f.commands[0].len(), head.len() + 4096 + 2);
}

#[test]
fn fitting_image_sends_its_own_bytes_in_order() {
    let img = image(100, 50);
    let f = render_native(&img, 80, 24, 8, 16);
    assert_eq!((f.col, f.row), (33, 10));
    assert_eq!(f.commands.len(), 7);
    assert!(f.commands[0].starts_with(b"\x1b_Ga=T,f=32,s=100,v=50,m=1;"));
    for c in &f.commands[1..6] {
        assert!(c.starts_with(b"\x1b_Gm=1;"));
    }
    assert!(f.commands[6].starts_with(b"\x1b_Gm=0;"));
    let payload = payload_of(&f.commands);
    assert_eq!(payload.len(), 26668);
    let decoded = base64::engine::general_purpose::STANDARD.decode(&payload).unwrap();
    assert_eq!(decoded, img.pixels);
}

#[test]
fn halfblock_grid_uses_given_bytes() {
    let scaled = half_layout(1, 2, 3, 2);
    assert_eq!((scaled.width, scaled.height, scaled.off_x, scaled.off_y), (2, 4, 0, 0));
    let lay = HalfLayout { scale: Ratio { num: 1, den: 1 }, width: 1, height: 2, off_x: 1, off_y: 1 };
    let pixels = vec![10, 20, 30, 255, 40, 50, 60, 255];
    let g = halfblock_grid(&pixels, lay, 3, 2);
    let black = Rgb { r: 0, g: 0, b: 0 };
    assert_eq!(g[0], vec![HalfCell::Blank, HalfCell::Upper { fg: black, bg: Rgb { r: 10, g: 20, b: 30 } }, HalfCell::Blank]);
    assert_eq!(g[1][1], HalfCell::Upper { fg: Rgb { r: 40, g: 50, b: 60 }, bg: black });
    assert_eq!(g[1][0], HalfCell::Blank);
}

#[test]
fn backend_follows_pixel_report() {
    assert_eq!(choose_backend(None), Backend::HalfBlock);
    let px = WindowSize { rows: 24, cols: 80, x_pixels: 640, y_pixels: 384 };
    assert_eq!(choose_backend(Some(px)), Backend::Native);
    let none = WindowSize { rows: 24, cols: 80, x_pixels: 0, y_pixels: 0 };
    assert_eq!(choose_backend(Some(none)), Backend::HalfBlock);
}
