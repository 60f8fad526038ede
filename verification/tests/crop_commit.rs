use rust_screenshot::crop::{
    crop_from_buffer, draw_selection_outline, selection_to_region, CHROME_OFFSET_Y, OUTLINE_WORD,
};
use rust_screenshot::{CropRegion, CropSession, Display, LogicalPoint, Pixel, RasterImage};

fn display(scale_centi: u32) -> Display {
    Display { id: 1, width: 1920, height: 1080, scale_centi }
}

fn gradient(width: u32, height: u32) -> RasterImage {
    let mut img = RasterImage::new_filled(width, height);
    for y in 0..height {
        for x in 0..width {
            img.put_pixel(
                x,
                y,
                Pixel {
                    r: (x % 256) as u8,
                    g: (y % 256) as u8,
                    b: ((x / 256 + (y / 256) * 8) % 256) as u8,
                    a: 255,
                },
            );
        }
    }
    img
}

fn region(sx: u32, sy: u32, ex: u32, ey: u32) -> CropRegion {
    CropRegion {
        start: LogicalPoint { x: sx, y: sy },
        end: LogicalPoint { x: ex, y: ey },
    }
}

#[test]
fn crop_at_unit_scale_has_logical_dimensions() {
    // Logical region (100,100)-(300,250) on a 1.0x display: 200x150 pixels
    // cut from pixel origin (100, 100 - chrome).
    let full = gradient(1920, 1080);
    let out = crop_from_buffer(&full, region(100, 100, 300, 250), &display(100), CHROME_OFFSET_Y);
    let img = out.expect("non-degenerate region must crop");
    assert_eq!(img.width, 200);
    assert_eq!(img.height, 150);
    for (dx, dy) in [(0u32, 0u32), (17, 3), (199, 149)] {
        assert_eq!(img.get_pixel(dx, dy), full.get_pixel(100 + dx, 100 - 65 + dy));
    }
}

#[test]
fn crop_at_double_scale_doubles_dimensions_and_skips_chrome() {
    // The same logical region on a 2.0x display: 400x300 pixels, no chrome
    // compensation, columns scaled but rows read in source units.
    let full = gradient(1920, 1080);
    let out = crop_from_buffer(&full, region(100, 100, 300, 250), &display(200), CHROME_OFFSET_Y);
    let img = out.expect("non-degenerate region must crop");
    assert_eq!(img.width, 400);
    assert_eq!(img.height, 300);
    for (dx, dy) in [(0u32, 0u32), (31, 12), (399, 299)] {
        assert_eq!(img.get_pixel(dx, dy), full.get_pixel(200 + dx, 100 + dy));
    }
}

#[test]
fn degenerate_region_is_rejected() {
    let full = gradient(64, 64);
    assert!(crop_from_buffer(&full, region(10, 10, 10, 10), &display(100), 0).is_none());
    assert!(crop_from_buffer(&full, region(10, 10, 10, 30), &display(100), 0).is_none());
    assert!(crop_from_buffer(&full, region(10, 10, 30, 10), &display(100), 0).is_none());
    // Corners in the wrong order scale to zero extent as well.
    assert!(crop_from_buffer(&full, region(30, 30, 10, 10), &display(100), 0).is_none());
}

#[test]
fn full_region_crop_round_trips() {
    let full = gradient(320, 200);
    let d = Display { id: 1, width: 320, height: 200, scale_centi: 100 };
    let out = crop_from_buffer(&full, region(0, 0, 320, 200), &d, 0);
    let img = out.expect("full region must crop");
    assert_eq!(img.width, full.width);
    assert_eq!(img.height, full.height);
    assert_eq!(img.data, full.data);
}

#[test]
fn out_of_bounds_reads_become_transparent() {
    let full = gradient(64, 64);
    // A region reaching past the right and bottom edges of the source.
    let out = crop_from_buffer(&full, region(48, 48, 80, 80), &display(100), 0);
    let img = out.expect("non-degenerate region must crop");
    assert_eq!(img.width, 32);
    assert_eq!(img.height, 32);
    assert_eq!(img.get_pixel(0, 0), full.get_pixel(48, 48));
    assert_eq!(img.get_pixel(15, 15), full.get_pixel(63, 63));
    assert_eq!(img.get_pixel(16, 0), Pixel { r: 0, g: 0, b: 0, a: 0 });
    assert_eq!(img.get_pixel(0, 16), Pixel { r: 0, g: 0, b: 0, a: 0 });
}

#[test]
fn normalization_orders_corners_per_axis() {
    let r = region(30, 5, 10, 25).normalized();
    assert_eq!(r.start, LogicalPoint { x: 10, y: 5 });
    assert_eq!(r.end, LogicalPoint { x: 30, y: 25 });
}

#[test]
fn selection_window_mapping_applies_calibrated_offsets() {
    let r = selection_to_region(LogicalPoint { x: 40, y: 10 }, LogicalPoint { x: 90, y: 60 });
    assert_eq!(r.start, LogicalPoint { x: 41, y: 77 });
    assert_eq!(r.end, LogicalPoint { x: 89, y: 125 });

    let r = selection_to_region(LogicalPoint { x: 0, y: 0 }, LogicalPoint { x: 0, y: 0 });
    assert_eq!(r.start, LogicalPoint { x: 1, y: 67 });
    assert_eq!(r.end, LogicalPoint { x: 0, y: 65 });
}

#[test]
fn selection_outline_paints_exactly_the_border() {
    let w: u32 = 8;
    let h: u32 = 6;
    let mut buf: Vec<u32> = vec![7; (w * h) as usize];
    draw_selection_outline(
        &mut buf,
        w,
        h,
        LogicalPoint { x: 5, y: 4 },
        LogicalPoint { x: 2, y: 1 },
    );
    for y in 0..h {
        for x in 0..w {
            let inside = (2..=5).contains(&x) && (1..=4).contains(&y);
            let border = inside && (x == 2 || x == 5 || y == 1 || y == 4);
            let expected = if border { OUTLINE_WORD } else { 7 };
            assert_eq!(buf[(y * w + x) as usize], expected, "word ({x},{y})");
        }
    }
}

#[test]
fn selection_outline_is_clamped_to_the_buffer() {
    let mut buf: Vec<u32> = vec![0; 9];
    draw_selection_outline(
        &mut buf,
        3,
        3,
        LogicalPoint { x: 1, y: 1 },
        LogicalPoint { x: 10, y: 10 },
    );
    // Only the top and left edges of the rectangle fall inside the buffer.
    assert_eq!(buf, vec![0, 0, 0, 0, OUTLINE_WORD, OUTLINE_WORD, 0, OUTLINE_WORD, 0]);
}

#[test]
fn second_pointer_down_keeps_gesture_start() {
    let mut s = CropSession::Idle;
    s.begin();
    assert_eq!(s, CropSession::Armed);

    assert!(s.on_sample(LogicalPoint { x: 5, y: 6 }, true).is_none());
    assert!(matches!(
        s,
        CropSession::Dragging { start: LogicalPoint { x: 5, y: 6 }, last: None }
    ));

    // A second down sample moves only the live end corner.
    assert!(s.on_sample(LogicalPoint { x: 50, y: 60 }, true).is_none());
    match s {
        CropSession::Dragging { start, last } => {
            assert_eq!(start, LogicalPoint { x: 5, y: 6 });
            assert_eq!(last, Some(LogicalPoint { x: 50, y: 60 }));
        }
        _ => panic!("session must still be dragging"),
    }

    let commit = s.on_sample(LogicalPoint { x: 999, y: 999 }, false);
    let r = commit.expect("release after a drag commits");
    // The committed region uses the last drag sample, not the release
    // position, and comes out normalized.
    assert_eq!(r.start, LogicalPoint { x: 5, y: 6 });
    assert_eq!(r.end, LogicalPoint { x: 50, y: 60 });
    assert_eq!(s, CropSession::Idle);
}

#[test]
fn release_without_drag_disarms_without_commit() {
    let mut s = CropSession::Idle;
    s.begin();
    assert!(s.on_sample(LogicalPoint { x: 5, y: 6 }, true).is_none());
    assert!(s.on_sample(LogicalPoint { x: 5, y: 6 }, false).is_none());
    assert_eq!(s, CropSession::Armed);
}

#[test]
fn idle_session_ignores_samples() {
    let mut s = CropSession::Idle;
    assert!(s.on_sample(LogicalPoint { x: 1, y: 2 }, true).is_none());
    assert_eq!(s, CropSession::Idle);
    let mut s = CropSession::Armed;
    s.cancel();
    assert_eq!(s, CropSession::Idle);
}

#[test]
fn drag_commit_normalizes_reversed_corners() {
    let mut s = CropSession::Armed;
    assert!(s.on_sample(LogicalPoint { x: 80, y: 90 }, true).is_none());
    assert!(s.on_sample(LogicalPoint { x: 20, y: 30 }, true).is_none());
    let r = s.on_sample(LogicalPoint { x: 0, y: 0 }, false).unwrap();
    assert_eq!(r.start, LogicalPoint { x: 20, y: 30 });
    assert_eq!(r.end, LogicalPoint { x: 80, y: 90 });
}
