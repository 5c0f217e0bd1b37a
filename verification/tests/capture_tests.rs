use digital_diary::encoder::{
    bgra_to_rgba, downscale_rgba_nearest, encode_webp_with_size_target, limit_width_rgba,
};
use digital_diary::idle::IdleTracker;
use digital_diary::scheduler::{align_to_second, SampleBatcher};
use digital_diary::screenshot::{
    get_screenshot_path, infer_mime_type_from_path, screenshot_day_dir, screenshot_filename,
    stored_screenshot_path,
};
use digital_diary::settings::{
    resolve_screenshot_file_path, resolve_screenshot_storage_dir, ScreenshotSettings,
};
use digital_diary::strutil::{i64_to_dec, pad2, pad4, text_contains_ci, texts_equal, u64_to_dec};
use digital_diary::types::WindowActivityCapture;

fn gradient_rgba(width: usize, height: usize) -> Vec<u8> {
    let mut px = Vec::with_capacity(width * height * 4);
    for y in 0..height {
        for x in 0..width {
            px.push((x % 256) as u8);
            px.push((y % 256) as u8);
            px.push(((x + y) % 256) as u8);
            px.push(255);
        }
    }
    px
}

#[test]
fn encoder_meets_budget_when_achievable() {
    let px = gradient_rgba(64, 64);
    let out = encode_webp_with_size_target(px, 64, 64, 100_000, 80);
    assert!(!out.is_empty());
    assert!(out.len() <= 100_000);
}

#[test]
fn encoder_returns_smallest_when_budget_unreachable() {
    let px = gradient_rgba(64, 64);
    // A one-byte budget is unreachable; the search must still return the
    // smallest encoding it saw rather than fail.
    let out = encode_webp_with_size_target(px, 64, 64, 1, 40);
    assert!(!out.is_empty());
    assert!(out.len() > 1);
}

#[test]
fn encoder_downscales_toward_floor_for_large_frames() {
    let px = gradient_rgba(1200, 700);
    let out = encode_webp_with_size_target(px, 1200, 700, 200, 40);
    // The budget is tiny, so the ladder must have walked down in both
    // quality and resolution; whatever came back is the smallest observed.
    assert!(!out.is_empty());
}

#[test]
fn bgra_swaps_red_and_blue() {
    let bgra = vec![1u8, 2, 3, 4, 5, 6, 7, 8];
    let rgba = bgra_to_rgba(&bgra);
    assert_eq!(rgba, vec![3, 2, 1, 4, 7, 6, 5, 8]);
}

#[test]
fn bgra_pads_incomplete_pixel_with_zeros() {
    let bgra = vec![1u8, 2, 3, 4, 9, 9];
    let rgba = bgra_to_rgba(&bgra);
    assert_eq!(rgba, vec![3, 2, 1, 4, 0, 0]);
}

#[test]
fn downscale_picks_nearest_pixels() {
    // 2x2 image, distinct pixels.
    let src = vec![
        10u8, 11, 12, 13, // (0,0)
        20, 21, 22, 23, // (1,0)
        30, 31, 32, 33, // (0,1)
        40, 41, 42, 43, // (1,1)
    ];
    let dst = downscale_rgba_nearest(&src, 2, 2, 1, 1);
    assert_eq!(dst, vec![10, 11, 12, 13]);
}

#[test]
fn limit_width_caps_wide_frames_only() {
    let src = gradient_rgba(4, 2);
    let (same, w, h) = limit_width_rgba(src.clone(), 4, 2, 8);
    assert_eq!((w, h), (4, 2));
    assert_eq!(same, src);

    let (scaled, w2, h2) = limit_width_rgba(src, 4, 2, 2);
    assert_eq!((w2, h2), (2, 1));
    assert_eq!(scaled.len(), 2 * 1 * 4);
}

#[test]
fn settings_are_clamped_and_trimmed() {
    let s = ScreenshotSettings {
        quality: 0,
        max_width: 100,
        max_file_kb: 5000,
        storage_dir: Some("  /custom/dir  ".to_string()),
    }
    .normalized();
    assert_eq!(s.quality, 1);
    assert_eq!(s.max_width, 640);
    assert_eq!(s.max_file_kb, 2048);
    assert_eq!(s.storage_dir, Some("/custom/dir".to_string()));

    let blank = ScreenshotSettings {
        quality: 255,
        max_width: 99999,
        max_file_kb: 1,
        storage_dir: Some("   ".to_string()),
    }
    .normalized();
    assert_eq!(blank.quality, 100);
    assert_eq!(blank.max_width, 7680);
    assert_eq!(blank.max_file_kb, 20);
    assert!(blank.storage_dir.is_none());
}

#[test]
fn default_settings_match_documented_values() {
    let s = ScreenshotSettings::default();
    assert_eq!(s.quality, 40);
    assert_eq!(s.max_width, 960);
    assert_eq!(s.max_file_kb, 50);
    assert!(s.storage_dir.is_none());
}

#[test]
fn storage_dir_resolution_prefers_configured_path() {
    let default = resolve_screenshot_storage_dir("/data", None);
    assert_eq!(default, "/data/screenshots");

    let blank = resolve_screenshot_storage_dir("/data", Some("   ".to_string()));
    assert_eq!(blank, "/data/screenshots");

    let custom = resolve_screenshot_storage_dir("/data", Some(" /mnt/shots ".to_string()));
    assert_eq!(custom, "/mnt/shots");
}

#[test]
fn file_path_resolution_roots_relative_paths() {
    let abs = resolve_screenshot_file_path("/data", "/already/abs.webp");
    assert_eq!(abs, "/already/abs.webp");

    let drive = resolve_screenshot_file_path("/data", "C:\\shots\\a.webp");
    assert_eq!(drive, "C:\\shots\\a.webp");

    let rel = resolve_screenshot_file_path("/data", "screenshots/2025/01/17/a.webp");
    assert_eq!(rel, "/data/screenshots/2025/01/17/a.webp");

    let messy = resolve_screenshot_file_path("/data", "./a//b/./c.webp");
    assert_eq!(messy, "/data/a/b/c.webp");
}

#[test]
fn mime_type_follows_extension() {
    assert_eq!(infer_mime_type_from_path("shot.webp"), "image/webp");
    assert_eq!(infer_mime_type_from_path("shot.JPG"), "image/jpeg");
    assert_eq!(infer_mime_type_from_path("a/b/shot.jpeg"), "image/jpeg");
    assert_eq!(infer_mime_type_from_path("shot.gif"), "image/gif");
    assert_eq!(infer_mime_type_from_path("shot.bmp"), "image/bmp");
    assert_eq!(infer_mime_type_from_path("shot.tiff"), "image/tiff");
    assert_eq!(infer_mime_type_from_path("shot"), "image/png");
    assert_eq!(infer_mime_type_from_path("shot.xyz"), "image/png");
}

#[test]
fn dated_paths_and_filenames_are_zero_padded() {
    assert_eq!(get_screenshot_path("/base"), "/base/screenshots");
    assert_eq!(screenshot_day_dir("/root", 2025, 1, 17), "/root/2025/01/17");
    assert_eq!(
        screenshot_filename(2025, 1, 17, 9, 5, 3),
        "screenshot_20250117_090503.webp"
    );
    assert_eq!(
        stored_screenshot_path(&None, 2025, 1, 17, "shot.webp"),
        "screenshots/2025/01/17/shot.webp"
    );
    assert_eq!(
        stored_screenshot_path(&Some("/mnt/shots".to_string()), 2025, 1, 17, "shot.webp"),
        "/mnt/shots/2025/01/17/shot.webp"
    );
}

#[test]
fn decimal_rendering_is_exact() {
    assert_eq!(u64_to_dec(0), "0");
    assert_eq!(u64_to_dec(907), "907");
    assert_eq!(i64_to_dec(-5), "-5");
    assert_eq!(i64_to_dec(1737110400000), "1737110400000");
    assert_eq!(i64_to_dec(i64::MIN), "-9223372036854775808");
    assert_eq!(pad2(7), "07");
    assert_eq!(pad4(42), "0042");
}

#[test]
fn text_helpers_compare_case_insensitively() {
    assert!(text_contains_ci("Absolutely", "ab"));
    assert!(text_contains_ci("MEETING notes", "meeting"));
    assert!(!text_contains_ci("meeting", "notes"));
    assert!(texts_equal("merged", "merged"));
    assert!(!texts_equal("merged", "Merged"));
}

#[test]
fn second_alignment_truncates_toward_zero() {
    assert_eq!(align_to_second(0), 0);
    assert_eq!(align_to_second(1234), 1000);
    assert_eq!(align_to_second(999), 0);
    assert_eq!(align_to_second(-1234), -1000);
    assert_eq!(align_to_second(-999), 0);
    assert_eq!(align_to_second(i64::MIN), -9223372036854775000);
}

#[test]
fn idle_tracker_opens_and_closes_gaps() {
    let mut tracker = IdleTracker::new(300_000);

    // Active: recent input.
    assert_eq!(tracker.observe(1_000_000, 990_000), None);

    // Idle threshold reached: the gap opens at the last activity time.
    assert_eq!(tracker.observe(1_400_000, 1_000_000), None);

    // Still idle.
    assert_eq!(tracker.observe(1_500_000, 1_000_000), None);

    // Input returns: the gap closes as [last_activity, now).
    let gap = tracker.observe(1_600_000, 1_599_000);
    assert_eq!(gap, Some((1_000_000, 1_600_000)));

    // Back to active, nothing further reported.
    assert_eq!(tracker.observe(1_601_000, 1_600_500), None);
}

#[test]
fn sample_batcher_flushes_every_fifth_sample() {
    let mut batcher = SampleBatcher::new(5);
    for i in 0..4 {
        let out = batcher.push(WindowActivityCapture {
            timestamp: i,
            window_title: format!("w{}", i),
            process_name: "p".to_string(),
        });
        assert!(out.is_none());
    }
    let flushed = batcher
        .push(WindowActivityCapture {
            timestamp: 4,
            window_title: "w4".to_string(),
            process_name: "p".to_string(),
        })
        .expect("fifth sample must flush the batch");
    assert_eq!(flushed.len(), 5);
    assert_eq!(flushed[0].timestamp, 0);
    assert_eq!(flushed[4].timestamp, 4);

    // The buffer starts over afterwards.
    let next = batcher.push(WindowActivityCapture {
        timestamp: 5,
        window_title: "w5".to_string(),
        process_name: "p".to_string(),
    });
    assert!(next.is_none());
}
