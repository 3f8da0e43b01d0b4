use tray_icon::icon::{
    icon_to_status_bar_icon, scale_rgba, to_monochrome, BadIcon, PlatformIcon, StatusBarIcon,
};

#[test]
fn test_scale_rgba_same_size() {
    let rgba = vec![10, 20, 30, 255, 40, 50, 60, 255];
    let scaled = scale_rgba(&rgba, 2, 1, 2, 1);
    assert_eq!(scaled, rgba);
}

#[test]
fn test_scale_rgba_downsample() {
    let rgba = vec![255u8; 48 * 48 * 4];
    let scaled = scale_rgba(&rgba, 48, 48, 24, 24);
    assert_eq!(scaled.len(), 24 * 24 * 4);
    assert!(scaled.iter().all(|&b| b == 255));
}

#[test]
fn test_scale_rgba_uses_nearest_neighbor() {
    let rgba = vec![
        100, 100, 100, 255, 200, 200, 200, 255, 150, 150, 150, 255, 250, 250, 250, 255,
    ];
    let scaled = scale_rgba(&rgba, 2, 2, 1, 1);
    assert_eq!(scaled.len(), 4);
    assert_eq!(scaled[0], 100);
    assert_eq!(scaled[1], 100);
    assert_eq!(scaled[2], 100);
    assert_eq!(scaled[3], 255);
}

#[test]
fn test_to_monochrome_white_threshold() {
    let rgba = vec![
        255, 0, 0, 255, // red, opaque → white, opaque
        0, 128, 255, 128, // blue, alpha=128 (at threshold) → white, opaque
        0, 0, 0, 127, // alpha=127 (below threshold) → transparent
        0, 0, 0, 0, // transparent → transparent
    ];
    let white = to_monochrome(&rgba, 255);
    assert_eq!(
        white,
        vec![255, 255, 255, 255, 255, 255, 255, 255, 0, 0, 0, 0, 0, 0, 0, 0,]
    );
}

#[test]
fn test_to_monochrome_black_threshold() {
    let rgba = vec![
        255, 255, 255, 200, // white pixel, alpha=200 → black, opaque
        50, 100, 150, 64, // colored pixel, alpha=64 → transparent
    ];
    let black = to_monochrome(&rgba, 0);
    assert_eq!(black, vec![0, 0, 0, 255, 0, 0, 0, 0,]);
}

#[test]
fn test_icon_to_status_bar_icon_template_different() {
    let icon = PlatformIcon {
        rgba: vec![255, 0, 0, 255, 0, 255, 0, 128, 0, 0, 255, 0, 128, 128, 128, 64],
        width: 2,
        height: 2,
    };
    let result = icon_to_status_bar_icon(&icon, true).unwrap();
    let white = result.white.clone().unwrap();
    let black = result.black.clone().unwrap();
    // White version: all RGB=255, alpha thresholded to 255
    assert_eq!(white[0], 255);
    assert_eq!(white[1], 255);
    assert_eq!(white[2], 255);
    assert_eq!(white[3], 255);
    assert_eq!(white[4], 255);
    assert_eq!(white[5], 255);
    assert_eq!(white[6], 255);
    assert_eq!(white[7], 255);
    // Black version: all RGB=0, alpha thresholded to 255
    assert_eq!(black[0], 0);
    assert_eq!(black[1], 0);
    assert_eq!(black[2], 0);
    assert_eq!(black[3], 255);
    assert_eq!(black[4], 0);
    assert_eq!(black[5], 0);
    assert_eq!(black[6], 0);
    assert_eq!(black[7], 255);
    // They should be different
    assert_ne!(white, black);
}

#[test]
fn test_icon_to_status_bar_icon_not_template_same() {
    let icon = PlatformIcon {
        rgba: vec![255, 0, 0, 255, 0, 255, 0, 128, 0, 0, 255, 0, 128, 128, 128, 64],
        width: 2,
        height: 2,
    };
    let result = icon_to_status_bar_icon(&icon, false).unwrap();
    let white = result.white.clone().unwrap();
    let black = result.black.clone().unwrap();
    // Both should be the original image
    assert_eq!(white, black);
    assert_eq!(white, icon.rgba);
}

#[test]
fn from_rgba_accepts_four_bytes_per_pixel() {
    let icon = PlatformIcon::from_rgba(vec![1u8; 2 * 3 * 4], 2, 3).unwrap();
    assert_eq!(icon.width, 2);
    assert_eq!(icon.height, 3);
    assert_eq!(icon.rgba.len(), 24);
}

#[test]
fn from_rgba_refuses_wrong_length() {
    let err = PlatformIcon::from_rgba(vec![0u8; 10], 2, 2).unwrap_err();
    assert_eq!(
        err,
        BadIcon::DimensionsVsPixelCount {
            width: 2,
            height: 2,
            width_x_height: 4,
            pixel_count: 2,
        }
    );
}

#[test]
fn from_rgba_accepts_empty_icon() {
    let icon = PlatformIcon::from_rgba(Vec::new(), 0, 5).unwrap();
    assert_eq!(icon.rgba.len(), 0);
}

#[test]
fn scale_rgba_upscales_by_repeating_pixels() {
    // 2x1 → 4x2: each source pixel covers two columns, both rows repeat.
    let rgba = vec![1, 2, 3, 4, 5, 6, 7, 8];
    let scaled = scale_rgba(&rgba, 2, 1, 4, 2);
    assert_eq!(
        scaled,
        vec![
            1, 2, 3, 4, 1, 2, 3, 4, 5, 6, 7, 8, 5, 6, 7, 8, //
            1, 2, 3, 4, 1, 2, 3, 4, 5, 6, 7, 8, 5, 6, 7, 8,
        ]
    );
}

#[test]
fn scale_rgba_samples_floor_of_ratio() {
    // 3x1 → 2x1: columns ⌊0·3/2⌋ = 0 and ⌊1·3/2⌋ = 1.
    let rgba = vec![10, 10, 10, 10, 20, 20, 20, 20, 30, 30, 30, 30];
    let scaled = scale_rgba(&rgba, 3, 1, 2, 1);
    assert_eq!(scaled, vec![10, 10, 10, 10, 20, 20, 20, 20]);
}

#[test]
fn scale_rgba_to_nothing_is_empty() {
    let rgba = vec![1, 2, 3, 4];
    assert!(scale_rgba(&rgba, 1, 1, 0, 3).is_empty());
}

#[test]
fn monochrome_is_idempotent_on_sample() {
    let rgba = vec![9, 8, 7, 200, 1, 2, 3, 5, 4, 4, 4, 128];
    let once = to_monochrome(&rgba, 255);
    let twice = to_monochrome(&once, 255);
    assert_eq!(once, twice);
}

#[test]
fn silhouettes_share_alpha_mask() {
    let rgba = vec![9, 8, 7, 200, 1, 2, 3, 5, 4, 4, 4, 128, 0, 0, 0, 127];
    let white = to_monochrome(&rgba, 255);
    let black = to_monochrome(&rgba, 0);
    for p in 0..4 {
        assert_eq!(white[4 * p + 3], black[4 * p + 3]);
    }
    assert_eq!(white, vec![255, 255, 255, 255, 0, 0, 0, 0, 255, 255, 255, 255, 0, 0, 0, 0]);
    assert_eq!(black, vec![0, 0, 0, 255, 0, 0, 0, 0, 0, 0, 0, 255, 0, 0, 0, 0]);
}

#[test]
fn status_bar_icon_is_squared_to_shorter_side() {
    // 2x1 raster becomes a 1x1 icon sampling the first pixel.
    let icon = PlatformIcon::from_rgba(vec![1, 2, 3, 4, 5, 6, 7, 8], 2, 1).unwrap();
    let result = icon_to_status_bar_icon(&icon, false).unwrap();
    assert_eq!(result.size, 1);
    assert_eq!(result.white, Some(vec![1, 2, 3, 4]));
    assert_eq!(result.black, Some(vec![1, 2, 3, 4]));
}

#[test]
fn empty_status_bar_icon_has_no_renderings() {
    let icon = StatusBarIcon::default();
    assert!(icon.white.is_none());
    assert!(icon.black.is_none());
    assert_eq!(icon.size, 0);
}
