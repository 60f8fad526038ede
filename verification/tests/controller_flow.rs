use rust_screenshot::controller::{ModifierKey, ShortcutKey};
use rust_screenshot::crop::CHROME_OFFSET_Y;
use rust_screenshot::savefmt::{
    dec_string, default_save_path, timestamp_string, two_digit, year_string,
};
use rust_screenshot::{
    AppState, CropRegion, CropSession, Display, FileExtension, LogicalPoint, Pixel, RasterImage,
    Timestamp,
};

fn displays() -> Vec<Display> {
    vec![
        Display { id: 7, width: 1920, height: 1080, scale_centi: 100 },
        Display { id: 9, width: 2560, height: 1440, scale_centi: 200 },
    ]
}

fn state() -> AppState {
    AppState::new(displays(), String::from("/tmp/shots"))
}

fn capture(width: u32, height: u32, tag: u8) -> RasterImage {
    let mut img = RasterImage::new_filled(width, height);
    img.put_pixel(0, 0, Pixel { r: tag, g: tag, b: tag, a: 255 });
    img
}

#[test]
fn new_session_selects_first_display_with_default_config() {
    let s = state();
    assert_eq!(s.current_id, 7);
    assert!(s.full.is_none());
    assert!(s.cropped.is_none());
    assert_eq!(s.session, CropSession::Idle);
    assert_eq!(s.save.extension, FileExtension::Png);
    assert!(!s.save.auto_save);
    assert_eq!(s.delay, 0);
    assert!(!s.delay_enable);
    assert_eq!(s.screenshot_shortcut.modifier, ModifierKey::Ctrl);
    assert_eq!(s.screenshot_shortcut.key, ShortcutKey::S);
    assert_eq!(s.crop_shortcut.modifier, ModifierKey::Ctrl);
    assert_eq!(s.crop_shortcut.key, ShortcutKey::R);
}

#[test]
fn display_lookup_finds_by_id() {
    let s = state();
    assert_eq!(s.display_by_id(9).unwrap().width, 2560);
    assert!(s.display_by_id(8).is_none());
    assert_eq!(s.current_display().id, 7);
}

#[test]
fn selecting_a_display_invalidates_the_gesture() {
    let mut s = state();
    s.session = CropSession::Armed;
    assert!(s.set_current_display(9));
    assert_eq!(s.current_id, 9);
    assert_eq!(s.session, CropSession::Idle);

    s.session = CropSession::Armed;
    assert!(!s.set_current_display(1234));
    assert_eq!(s.current_id, 9);
    assert_eq!(s.session, CropSession::Armed);
}

#[test]
fn crop_requires_a_capture() {
    let mut s = state();
    assert!(!s.has_capture());
    assert!(!s.begin_crop());
    let d = *s.current_display();
    let region = CropRegion {
        start: LogicalPoint { x: 0, y: 0 },
        end: LogicalPoint { x: 10, y: 10 },
    };
    assert!(!s.commit_crop(&d, region, 0));
    assert!(s.cropped.is_none());
}

#[test]
fn capture_replaces_buffers_and_enables_crop() {
    let mut s = state();
    s.cropped = Some(capture(4, 4, 1));
    s.on_capture(capture(1920, 1080, 2));
    assert!(s.has_capture());
    assert!(s.cropped.is_none(), "a fresh capture discards the old crop");
    assert!(s.begin_crop());
    assert_eq!(s.session, CropSession::Armed);
}

#[test]
fn commit_crop_stores_the_cut_out() {
    let mut s = state();
    s.on_capture(capture(1920, 1080, 3));
    let d = *s.current_display();
    let region = CropRegion {
        start: LogicalPoint { x: 100, y: 100 },
        end: LogicalPoint { x: 300, y: 250 },
    };
    assert!(s.commit_crop(&d, region, CHROME_OFFSET_Y));
    let img = s.cropped.as_ref().unwrap();
    assert_eq!(img.width, 200);
    assert_eq!(img.height, 150);
}

#[test]
fn degenerate_commit_keeps_previous_crop() {
    let mut s = state();
    s.on_capture(capture(1920, 1080, 3));
    let d = *s.current_display();
    let old_crop = capture(5, 5, 9);
    s.cropped = Some(RasterImage { width: 5, height: 5, data: old_crop.data.clone() });
    let region = CropRegion {
        start: LogicalPoint { x: 42, y: 17 },
        end: LogicalPoint { x: 42, y: 17 },
    };
    assert!(!s.commit_crop(&d, region, CHROME_OFFSET_Y));
    let kept = s.cropped.as_ref().unwrap();
    assert_eq!(kept.width, 5);
    assert_eq!(kept.data, old_crop.data);
}

#[test]
fn directly_recaptured_region_replaces_the_crop() {
    let mut s = state();
    s.on_capture(capture(1920, 1080, 1));
    s.cropped = Some(capture(4, 4, 2));
    s.adopt_crop(capture(8, 6, 5));
    let img = s.cropped.as_ref().unwrap();
    assert_eq!(img.width, 8);
    assert_eq!(img.height, 6);
    assert_eq!(img.get_pixel(0, 0).r, 5);
    assert!(s.full.is_some());
}

#[test]
fn cancel_discards_crop_state() {
    let mut s = state();
    s.on_capture(capture(64, 64, 1));
    s.cropped = Some(capture(4, 4, 2));
    s.session = CropSession::Armed;
    s.cancel_crop();
    assert!(s.cropped.is_none());
    assert_eq!(s.session, CropSession::Idle);
    assert!(s.full.is_some());
}

#[test]
fn active_image_prefers_the_crop_result() {
    let mut s = state();
    assert!(s.active_image().is_none());
    s.on_capture(capture(8, 8, 1));
    assert_eq!(s.active_image().unwrap().get_pixel(0, 0).r, 1);
    s.cropped = Some(capture(4, 4, 2));
    assert_eq!(s.active_image().unwrap().get_pixel(0, 0).r, 2);
}

#[test]
fn save_request_needs_an_image() {
    let s = state();
    assert!(s.save_request(None).is_none());
}

#[test]
fn default_save_request_is_stamped_under_the_directory() {
    let mut s = state();
    s.on_capture(capture(8, 8, 1));
    let path = s.save_request(None).unwrap();
    assert!(path.starts_with("/tmp/shots/rust_screenshot_"));
    assert!(path.ends_with(".png"));
    let stamp = &path["/tmp/shots/rust_screenshot_".len()..path.len() - ".png".len()];
    assert_eq!(stamp.len(), 19, "DD-MM-YYYY_HH-MM-SS: {stamp}");
    let bytes = stamp.as_bytes();
    for (i, b) in bytes.iter().enumerate() {
        match i {
            2 | 5 | 13 | 16 => assert_eq!(*b, b'-', "{stamp}"),
            10 => assert_eq!(*b, b'_', "{stamp}"),
            _ => assert!(b.is_ascii_digit(), "{stamp}"),
        }
    }
}

#[test]
fn explicit_prefix_is_stamped() {
    let mut s = state();
    s.on_capture(capture(8, 8, 1));
    let path = s.save_request(Some(String::from("/elsewhere/pick"))).unwrap();
    assert!(path.starts_with("/elsewhere/pick_"));
    assert!(path.ends_with(".png"));
    assert_eq!(path.len(), "/elsewhere/pick_".len() + 19 + ".png".len());
}

#[test]
fn save_as_path_is_used_verbatim() {
    let mut s = state();
    assert!(s.save_as_request(Some(String::from("/pick/exact.name"))).is_none());
    s.on_capture(capture(8, 8, 1));
    let path = s.save_as_request(Some(String::from("/pick/exact.name"))).unwrap();
    assert_eq!(path, "/pick/exact.name");
}

#[test]
fn save_as_without_path_falls_back_to_bare_stem() {
    let mut s = state();
    s.on_capture(capture(8, 8, 1));
    let path = s.save_as_request(None).unwrap();
    assert_eq!(path, "/tmp/shots/rust_screenshot");
}

#[test]
fn duplicate_ids_resolve_to_the_first_display() {
    let twins = vec![
        Display { id: 7, width: 1920, height: 1080, scale_centi: 100 },
        Display { id: 7, width: 800, height: 600, scale_centi: 100 },
    ];
    let s = AppState::new(twins, String::from("/tmp/shots"));
    assert_eq!(s.display_by_id(7).unwrap().width, 1920);
    assert_eq!(s.current_display().width, 1920);
}

#[test]
fn annotation_commit_targets_the_active_image() {
    let mut s = state();
    s.on_capture(capture(32, 32, 1));
    let d = *s.current_display();
    let stroke_color = Pixel { r: 9, g: 8, b: 7, a: 255 };

    s.annotation.record_sample(Some(LogicalPoint { x: 2, y: 5 }));
    s.annotation.record_sample(Some(LogicalPoint { x: 6, y: 5 }));
    s.annotation.record_sample(None);
    s.commit_annotation(&d, 1, stroke_color);
    assert!(s.annotation.strokes.is_empty());
    for x in 2..=6 {
        assert_eq!(s.full.as_ref().unwrap().get_pixel(x, 5), stroke_color);
    }

    // With a crop result present, the strokes land there and the full
    // capture keeps its pixels.
    s.cropped = Some(capture(16, 16, 2));
    let full_before = s.full.as_ref().unwrap().data.clone();
    s.annotation.record_sample(Some(LogicalPoint { x: 0, y: 1 }));
    s.annotation.record_sample(Some(LogicalPoint { x: 3, y: 1 }));
    s.annotation.record_sample(None);
    s.commit_annotation(&d, 1, stroke_color);
    for x in 0..=3 {
        assert_eq!(s.cropped.as_ref().unwrap().get_pixel(x, 1), stroke_color);
    }
    assert_eq!(s.full.as_ref().unwrap().data, full_before);
}

#[test]
fn clipboard_payload_matches_the_active_image() {
    let mut s = state();
    assert!(s.clipboard_payload().is_none());
    s.on_capture(capture(3, 2, 7));
    let c = s.clipboard_payload().unwrap();
    assert_eq!(c.width, 3);
    assert_eq!(c.height, 2);
    assert_eq!(c.bytes.len(), 3 * 2 * 4);
    assert_eq!(&c.bytes[0..4], &[7, 7, 7, 255]);
    assert_eq!(&c.bytes[4..8], &[0, 0, 0, 0]);
}

#[test]
fn effective_delay_needs_the_enable_flag() {
    let mut s = state();
    s.delay = 5;
    assert_eq!(s.effective_delay(), 0);
    s.delay_enable = true;
    assert_eq!(s.effective_delay(), 5);
    s.delay = 0;
    assert_eq!(s.effective_delay(), 0);
}

#[test]
fn shortcut_matching_compares_both_keys() {
    let s = state();
    assert!(s.screenshot_shortcut.matches(ModifierKey::Ctrl, ShortcutKey::S));
    assert!(!s.screenshot_shortcut.matches(ModifierKey::Alt, ShortcutKey::S));
    assert!(!s.crop_shortcut.matches(ModifierKey::Ctrl, ShortcutKey::S));
    assert!(s.crop_shortcut.matches(ModifierKey::Ctrl, ShortcutKey::R));
}

#[test]
fn extensions_have_their_dotted_names() {
    assert_eq!(FileExtension::Png.as_str(), ".png");
    assert_eq!(FileExtension::Jpeg.as_str(), ".jpeg");
    assert_eq!(FileExtension::Gif.as_str(), ".gif");
}

#[test]
fn decimal_formatting_is_exact() {
    assert_eq!(dec_string(0), "0");
    assert_eq!(dec_string(7), "7");
    assert_eq!(dec_string(10), "10");
    assert_eq!(dec_string(90210), "90210");
    assert_eq!(dec_string(u64::MAX), "18446744073709551615");
    assert_eq!(two_digit(0), "00");
    assert_eq!(two_digit(9), "09");
    assert_eq!(two_digit(59), "59");
    assert_eq!(year_string(2023), "2023");
    assert_eq!(year_string(42), "0042");
    assert_eq!(year_string(-42), "-0042");
    assert_eq!(year_string(12345), "12345");
}

#[test]
fn timestamp_formatting_is_day_month_year() {
    let ts = Timestamp { year: 2023, month: 5, day: 7, hour: 9, minute: 4, second: 30 };
    assert_eq!(timestamp_string(&ts), "07-05-2023_09-04-30");
    let path = default_save_path("/home/u/pics", &ts, FileExtension::Gif);
    assert_eq!(path, "/home/u/pics/rust_screenshot_07-05-2023_09-04-30.gif");
}
