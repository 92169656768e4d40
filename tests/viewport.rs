use termview::viewport::{Crop, Viewport, UNIT, ZOOM_MAX, ZOOM_MIN};

fn vp(zoom: u32, pan_x: i64, pan_y: i64) -> Viewport {
    Viewport { zoom, pan_x, pan_y }
}

#[test]
fn identity_crop_is_whole_image() {
    for (w, h) in [(1u32, 1u32), (100, 50), (7, 3000), (4096, 4096)] {
        let c = Viewport::identity().compute_crop(w, h);
        assert_eq!(c, Crop { x: 0, y: 0, width: w, height: h });
    }
}

#[test]
fn near_identity_counts_as_identity() {
    let c = vp(UNIT + 9_999, 9_999, -9_999).compute_crop(100, 50);
    assert_eq!(c, Crop { x: 0, y: 0, width: 100, height: 50 });
}

#[test]
fn zoom_two_centres_half_window() {
    let c = vp(2 * UNIT, 0, 0).compute_crop(100, 50);
    assert_eq!(c, Crop { x: 25, y: 12, width: 50, height: 25 });
}

#[test]
fn pan_is_clamped_to_image() {
    let c = vp(2 * UNIT, 5 * UNIT as i64, -5 * UNIT as i64).compute_crop(100, 50);
    assert_eq!(c, Crop { x: 50, y: 0, width: 50, height: 25 });
}

#[test]
fn pan_moves_by_fraction_of_size() {
    let c = vp(2 * UNIT, 100_000, 0).compute_crop(100, 50);
    assert_eq!(c, Crop { x: 35, y: 12, width: 50, height: 25 });
}

#[test]
fn zoomed_out_crop_is_whole_image() {
    let c = vp(ZOOM_MIN, 0, 0).compute_crop(100, 50);
    assert_eq!(c, Crop { x: 0, y: 0, width: 100, height: 50 });
}

#[test]
fn tiny_view_keeps_one_pixel() {
    let c = vp(ZOOM_MAX, 0, 0).compute_crop(3, 2);
    assert_eq!(c, Crop { x: 1, y: 0, width: 1, height: 1 });
}

#[test]
fn crop_stays_inside_image() {
    let zooms = [ZOOM_MIN, 500_000, UNIT, 1_250_000, 3_333_333, ZOOM_MAX];
    let pans = [-5_000_000i64, -1_000_000, -50_000, 0, 50_000, 700_000, 5_000_000];
    for (w, h) in [(1u32, 1u32), (2, 3), (100, 50), (1920, 1080)] {
        for z in zooms {
            for px in pans {
                for py in pans {
                    let c = vp(z, px, py).compute_crop(w, h);
                    assert!(c.width >= 1 && c.height >= 1);
                    assert!(c.x + c.width <= w && c.y + c.height <= h);
                }
            }
        }
    }
}

#[test]
fn larger_zoom_never_grows_area() {
    for pan in [-300_000i64, 0, 200_000] {
        let mut v = vp(ZOOM_MIN, pan, pan);
        let mut prev = u64::MAX;
        for _ in 0..30 {
            let c = v.compute_crop(640, 480);
            let area = c.width as u64 * c.height as u64;
            assert!(area <= prev);
            prev = area;
            v.zoom_in();
        }
    }
}

#[test]
fn zoom_steps() {
    let mut v = Viewport::identity();
    v.zoom_in();
    assert_eq!(v.zoom, 1_250_000);
    v.zoom_out();
    assert_eq!(v.zoom, UNIT);
    for _ in 0..30 {
        v.zoom_out();
    }
    assert_eq!(v.zoom, ZOOM_MIN);
    v.zoom_reset();
    assert_eq!(v, Viewport::identity());
}

#[test]
fn pan_accumulates_and_saturates() {
    let mut v = Viewport::identity();
    v.pan(50_000, -50_000);
    v.pan(50_000, 0);
    assert_eq!((v.pan_x, v.pan_y), (100_000, -50_000));
    v.pan(i64::MAX, i64::MIN);
    assert_eq!((v.pan_x, v.pan_y), (i64::MAX, i64::MIN));
}
