use rust_screenshot::annotate::draw_line;
use rust_screenshot::{AnnotationState, Display, LogicalPoint, Pixel, RasterImage};

const GREEN: Pixel = Pixel { r: 25, g: 200, b: 100, a: 255 };
const BLANK: Pixel = Pixel { r: 0, g: 0, b: 0, a: 0 };

fn display(scale_centi: u32) -> Display {
    Display { id: 1, width: 1920, height: 1080, scale_centi }
}

#[test]
fn two_point_stroke_paints_exactly_the_diagonal() {
    // One 2-point stroke from logical (0,0) to (10,10) at 1.0x, thickness
    // 1: exactly the pixels of that line, endpoints included, take the
    // stroke color.
    let mut img = RasterImage::new_filled(1920, 1080);
    let mut ann = AnnotationState::new();
    ann.record_sample(Some(LogicalPoint { x: 0, y: 0 }));
    ann.record_sample(Some(LogicalPoint { x: 10, y: 10 }));
    ann.record_sample(None);
    ann.commit(&mut img, &display(100), 1, GREEN);

    for y in 0..1080 {
        for x in 0..1920 {
            let expected = if x == y && x <= 10 { GREEN } else { BLANK };
            assert_eq!(img.get_pixel(x, y), expected, "pixel ({x},{y})");
        }
    }
    assert!(ann.strokes.is_empty(), "commit clears the recording");
}

#[test]
fn empty_commit_leaves_image_untouched() {
    let mut img = RasterImage::new_filled(32, 32);
    img.put_pixel(3, 4, Pixel { r: 7, g: 8, b: 9, a: 10 });
    let before = img.data.clone();
    let mut ann = AnnotationState::new();
    ann.commit(&mut img, &display(100), 3, GREEN);
    assert_eq!(img.data, before);
}

#[test]
fn single_point_stroke_is_discarded() {
    let mut img = RasterImage::new_filled(32, 32);
    let before = img.data.clone();
    let mut ann = AnnotationState::new();
    ann.record_sample(Some(LogicalPoint { x: 5, y: 5 }));
    ann.record_sample(None);
    ann.commit(&mut img, &display(100), 1, GREEN);
    assert_eq!(img.data, before);
}

#[test]
fn thickness_draws_offset_copies() {
    // Thickness 3 draws offsets -1, 0 and 1 of the (0,0)-(10,10) diagonal,
    // endpoints included; the in-bounds union is the diagonal (0,0)
    // through (11,11).
    let mut img = RasterImage::new_filled(64, 64);
    let mut ann = AnnotationState::new();
    ann.record_sample(Some(LogicalPoint { x: 0, y: 0 }));
    ann.record_sample(Some(LogicalPoint { x: 10, y: 10 }));
    ann.record_sample(None);
    ann.commit(&mut img, &display(100), 3, GREEN);

    for y in 0..64 {
        for x in 0..64 {
            let expected = if x == y && x <= 11 { GREEN } else { BLANK };
            assert_eq!(img.get_pixel(x, y), expected, "pixel ({x},{y})");
        }
    }
}

#[test]
fn stroke_scales_with_the_display() {
    // The same logical segment on a 2.0x display covers twice the pixels.
    let mut img = RasterImage::new_filled(64, 64);
    let mut ann = AnnotationState::new();
    ann.record_sample(Some(LogicalPoint { x: 0, y: 3 }));
    ann.record_sample(Some(LogicalPoint { x: 5, y: 3 }));
    ann.record_sample(None);
    ann.commit(&mut img, &display(200), 1, GREEN);

    for x in 0..=10 {
        assert_eq!(img.get_pixel(x, 6), GREEN, "pixel ({x},6)");
    }
    assert_eq!(img.get_pixel(11, 6), BLANK, "the line ends at its endpoint");
    assert_eq!(img.get_pixel(0, 3), BLANK);
}

#[test]
fn repeated_samples_do_not_duplicate_points() {
    let mut ann = AnnotationState::new();
    ann.record_sample(Some(LogicalPoint { x: 1, y: 1 }));
    ann.record_sample(Some(LogicalPoint { x: 1, y: 1 }));
    ann.record_sample(Some(LogicalPoint { x: 2, y: 2 }));
    assert_eq!(ann.strokes.len(), 1);
    assert_eq!(
        ann.strokes[0],
        vec![LogicalPoint { x: 1, y: 1 }, LogicalPoint { x: 2, y: 2 }]
    );
}

#[test]
fn release_finalizes_the_stroke() {
    let mut ann = AnnotationState::new();
    ann.record_sample(Some(LogicalPoint { x: 1, y: 1 }));
    ann.record_sample(Some(LogicalPoint { x: 2, y: 2 }));
    ann.record_sample(None);
    ann.record_sample(None);
    ann.record_sample(Some(LogicalPoint { x: 8, y: 9 }));
    assert_eq!(ann.strokes.len(), 2);
    assert_eq!(ann.strokes[1], vec![LogicalPoint { x: 8, y: 9 }]);
}

#[test]
fn horizontal_line_paints_exactly_its_span() {
    let mut img = RasterImage::new_filled(16, 16);
    draw_line(&mut img, 2, 3, 6, 3, GREEN);
    for y in 0..16 {
        for x in 0..16 {
            let expected = if y == 3 && (2..=6).contains(&x) { GREEN } else { BLANK };
            assert_eq!(img.get_pixel(x, y), expected, "pixel ({x},{y})");
        }
    }
}

#[test]
fn vertical_line_paints_exactly_its_span() {
    let mut img = RasterImage::new_filled(16, 16);
    draw_line(&mut img, 5, 9, 5, 4, GREEN);
    for y in 0..16 {
        for x in 0..16 {
            let expected = if x == 5 && (4..=9).contains(&y) { GREEN } else { BLANK };
            assert_eq!(img.get_pixel(x, y), expected, "pixel ({x},{y})");
        }
    }
}

#[test]
fn line_running_off_the_edge_is_clipped() {
    let mut img = RasterImage::new_filled(4, 4);
    draw_line(&mut img, -3, 2, 8, 2, GREEN);
    for x in 0..4 {
        assert_eq!(img.get_pixel(x, 2), GREEN);
    }
    assert_eq!(img.get_pixel(0, 0), BLANK);
}

#[test]
fn zero_length_line_paints_its_single_pixel() {
    let mut img = RasterImage::new_filled(8, 8);
    draw_line(&mut img, 3, 3, 3, 3, GREEN);
    for y in 0..8 {
        for x in 0..8 {
            let expected = if x == 3 && y == 3 { GREEN } else { BLANK };
            assert_eq!(img.get_pixel(x, y), expected);
        }
    }
}
