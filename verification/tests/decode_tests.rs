use base64::Engine;
use tray_icon::decode::{
    decode_icon_from_base64, decode_png_to_rgba, expand_rgb_to_rgba, frame_to_rgba, PngColorType,
    PngFrame,
};
use tray_icon::menu::build_item_options;

fn encode_png(width: u32, height: u32, color: png::ColorType, data: &[u8]) -> Vec<u8> {
    let mut out = Vec::new();
    {
        let mut encoder = png::Encoder::new(&mut out, width, height);
        encoder.set_color(color);
        encoder.set_depth(png::BitDepth::Eight);
        let mut writer = encoder.write_header().unwrap();
        writer.write_image_data(data).unwrap();
    }
    out
}

#[test]
fn rgba_png_decodes_to_its_samples() {
    let data = vec![1, 2, 3, 4, 5, 6, 7, 8];
    let png_bytes = encode_png(2, 1, png::ColorType::Rgba, &data);
    let (rgba, w, h) = decode_png_to_rgba(&png_bytes).unwrap();
    assert_eq!((w, h), (2, 1));
    assert_eq!(rgba, data);
}

#[test]
fn rgb_png_gains_opaque_alpha() {
    let data = vec![10, 20, 30, 40, 50, 60];
    let png_bytes = encode_png(1, 2, png::ColorType::Rgb, &data);
    let (rgba, w, h) = decode_png_to_rgba(&png_bytes).unwrap();
    assert_eq!((w, h), (1, 2));
    assert_eq!(rgba, vec![10, 20, 30, 255, 40, 50, 60, 255]);
}

#[test]
fn grayscale_png_is_refused_with_its_layout() {
    let png_bytes = encode_png(2, 1, png::ColorType::Grayscale, &[7, 9]);
    let err = decode_png_to_rgba(&png_bytes).unwrap_err();
    assert_eq!(err, "Unsupported PNG color type: Grayscale");
}

#[test]
fn garbage_is_not_a_png() {
    assert!(decode_png_to_rgba(&[1, 2, 3, 4]).is_err());
    assert!(decode_png_to_rgba(&[]).is_err());
}

#[test]
fn expand_rgb_handles_partial_last_group() {
    assert_eq!(expand_rgb_to_rgba(&[]), Vec::<u8>::new());
    assert_eq!(expand_rgb_to_rgba(&[1, 2, 3]), vec![1, 2, 3, 255]);
    assert_eq!(expand_rgb_to_rgba(&[1, 2, 3, 4, 5]), vec![1, 2, 3, 255, 4, 5, 255]);
}

#[test]
fn base64_png_icon_decodes() {
    let png_bytes = encode_png(1, 1, png::ColorType::Rgba, &[9, 8, 7, 6]);
    let b64 = base64::engine::general_purpose::STANDARD.encode(&png_bytes);
    let (rgba, w, h) = decode_icon_from_base64(Some(&b64));
    assert_eq!(rgba, Some(vec![9, 8, 7, 6]));
    assert_eq!(w, Some(1));
    assert_eq!(h, Some(1));
}

#[test]
fn missing_or_bad_icon_decodes_to_nothing() {
    assert_eq!(decode_icon_from_base64(None), (None, None, None));
    assert_eq!(decode_icon_from_base64(Some("%%%")), (None, None, None));
    let not_png = base64::engine::general_purpose::STANDARD.encode([1u8, 2, 3]);
    assert_eq!(decode_icon_from_base64(Some(&not_png)), (None, None, None));
}

#[test]
fn icon_item_shows_decoded_icon() {
    let png_bytes = encode_png(1, 1, png::ColorType::Rgb, &[1, 2, 3]);
    let b64 = base64::engine::general_purpose::STANDARD.encode(&png_bytes);
    let options = build_item_options("icon", Some(true), Some(&b64)).unwrap();
    assert_eq!(options.icon_rgba, Some(vec![1, 2, 3, 255]));
    assert_eq!(options.icon_width, Some(1));
    assert_eq!(options.icon_height, Some(1));
    assert_eq!(options.selected, None);
}

#[test]
fn frame_to_rgba_converts_by_layout() {
    let rgb = PngFrame { data: vec![1, 2, 3], width: 1, height: 1, color_type: PngColorType::Rgb };
    assert_eq!(frame_to_rgba(rgb).unwrap(), (vec![1, 2, 3, 255], 1, 1));
    let rgba = PngFrame { data: vec![1, 2, 3, 4], width: 1, height: 1, color_type: PngColorType::Rgba };
    assert_eq!(frame_to_rgba(rgba).unwrap(), (vec![1, 2, 3, 4], 1, 1));
    let indexed = PngFrame { data: vec![0], width: 1, height: 1, color_type: PngColorType::Indexed };
    assert_eq!(frame_to_rgba(indexed).unwrap_err(), "Unsupported PNG color type: Indexed");
    let ga = PngFrame { data: vec![0, 0], width: 1, height: 1, color_type: PngColorType::GrayscaleAlpha };
    assert_eq!(frame_to_rgba(ga).unwrap_err(), "Unsupported PNG color type: GrayscaleAlpha");
}

#[test]
fn unreadable_png_reports_the_failing_step() {
    let err = decode_png_to_rgba(&[1, 2, 3, 4]).unwrap_err();
    assert!(err.starts_with("PNG read_info failed: "), "{err}");
    // A valid header with its image data cut off fails while decoding the frame.
    let png_bytes = encode_png(4, 4, png::ColorType::Rgba, &[7u8; 64]);
    let cut = &png_bytes[..png_bytes.len() - 20];
    let err = decode_png_to_rgba(cut).unwrap_err();
    assert!(err.starts_with("PNG next_frame failed: "), "{err}");
}
