//! Menu-item icons: base64 text holding a PNG image, turned into an RGBA
//! raster.

use vstd::prelude::*;
use base64::Engine;
use png::ColorType;
use std::io::Cursor;

verus! {

/// The bytes that standard base64 (RFC 4648 alphabet, with padding)
/// decodes `text` into, or `None` where `text` is not valid base64.
pub uninterp spec fn base64_standard_decoding(text: Seq<char>) -> Option<Seq<u8>>;

/// Decodes `text` with the `base64` crate's `engine::general_purpose::STANDARD`
/// engine (`Engine::decode`). The contract claims only that the outcome is
/// the one named by `base64_standard_decoding` for this text.
#[verifier::external_body]
fn decode_base64_standard(text: &str) -> (r: Option<Vec<u8>>)
    ensures
        match r {
            Some(bytes) => base64_standard_decoding(text@) == Some(bytes@),
            None => base64_standard_decoding(text@) is None,
        },
{
    base64::engine::general_purpose::STANDARD.decode(text).ok()
}

/// The colour layout of a decoded PNG frame.
#[derive(Debug, Clone, Copy, PartialEq, Eq, Structural)]
pub enum PngColorType {
    Grayscale,
    Rgb,
    Indexed,
    GrayscaleAlpha,
    Rgba,
}

/// The first frame of a PNG image: its packed samples, size and layout.
pub struct PngFrame {
    pub data: Vec<u8>,
    pub width: u32,
    pub height: u32,
    pub color_type: PngColorType,
}

/// The step of PNG decoding that failed.
#[derive(Debug, Clone, Copy, PartialEq, Eq, Structural)]
pub enum PngReadStage {
    /// Reading the image header (`read_info`).
    ReadInfo,
    /// Sizing the output buffer (`output_buffer_size`).
    OutputBufferSize,
    /// Decoding the first frame (`next_frame`).
    NextFrame,
}

/// The outcome of PNG decoding with the `png` crate for `bytes`: the first
/// frame (samples, width, height, colour layout), or the failing step with
/// the crate's description of the error (empty where the step reports none).
pub uninterp spec fn png_decoding(bytes: Seq<u8>) -> Result<
    (Seq<u8>, u32, u32, PngColorType),
    (PngReadStage, Seq<char>),
>;

/// Decodes the first frame with the `png` crate: `Decoder::new` on the
/// bytes, `read_info`, `output_buffer_size`, `next_frame`, keeping the
/// frame's `buffer_size()` bytes; a failing step is reported with the
/// `Display` text of the crate's error. The contract claims only that the
/// outcome is the one named by `png_decoding`.
#[verifier::external_body]
fn read_png_frame(png_bytes: &[u8]) -> (r: Result<PngFrame, (PngReadStage, String)>)
    ensures
        match r {
            Ok(f) => png_decoding(png_bytes@) == Ok::<_, (PngReadStage, Seq<char>)>(
                (f.data@, f.width, f.height, f.color_type),
            ),
            Err((stage, detail)) => png_decoding(png_bytes@) == Err::<
                (Seq<u8>, u32, u32, PngColorType),
                _,
            >((stage, detail@)),
        },
{
    let decoder = png::Decoder::new(Cursor::new(png_bytes));
    let mut reader = decoder.read_info().map_err(|e| (PngReadStage::ReadInfo, e.to_string()))?;
    let size = reader.output_buffer_size().ok_or((PngReadStage::OutputBufferSize, String::new()))?;
    let mut buf = vec![0u8; size];
    let info = reader.next_frame(&mut buf).map_err(|e| (PngReadStage::NextFrame, e.to_string()))?;
    buf.truncate(info.buffer_size());
    let color_type = match info.color_type {
        ColorType::Grayscale => PngColorType::Grayscale,
        ColorType::Rgb => PngColorType::Rgb,
        ColorType::Indexed => PngColorType::Indexed,
        ColorType::GrayscaleAlpha => PngColorType::GrayscaleAlpha,
        ColorType::Rgba => PngColorType::Rgba,
    };
    Ok(PngFrame { data: buf, width: info.width, height: info.height, color_type })
}

/// RGB samples widened to RGBA: each group of three bytes (the last group
/// possibly shorter) followed by an opaque alpha byte.
pub open spec fn rgb_to_rgba(rgb: Seq<u8>) -> Seq<u8>
    decreases rgb.len(),
{
    if rgb.len() == 0 {
        Seq::empty()
    } else if rgb.len() <= 3 {
        rgb.push(255u8)
    } else {
        rgb.take(3).push(255u8) + rgb_to_rgba(rgb.skip(3))
    }
}

/// Widening whole RGB pixels keeps each pixel's samples and makes it
/// opaque: pixel `p` becomes `rgb[3p], rgb[3p+1], rgb[3p+2], 255`.
pub proof fn lemma_rgb_pixels_become_opaque(rgb: Seq<u8>)
    requires
        rgb.len() % 3 == 0,
    ensures
        rgb_to_rgba(rgb).len() == rgb.len() / 3 * 4,
        forall|p: int, c: int|
            0 <= p < rgb.len() / 3 && 0 <= c < 3 ==> #[trigger] rgb_to_rgba(rgb)[4 * p + c]
                == rgb[3 * p + c],
        forall|p: int| 0 <= p < rgb.len() / 3 ==> #[trigger] rgb_to_rgba(rgb)[4 * p + 3] == 255,
    decreases rgb.len(),
{
    if rgb.len() > 3 {
        let rest = rgb.skip(3);
        lemma_rgb_pixels_become_opaque(rest);
        let head = rgb.take(3).push(255u8);
        assert(rgb_to_rgba(rgb) == head + rgb_to_rgba(rest));
        assert forall|p: int, c: int|
            0 <= p < rgb.len() / 3 && 0 <= c < 3 implies #[trigger] rgb_to_rgba(rgb)[4 * p + c]
            == rgb[3 * p + c] by {
            if p > 0 {
                assert(rgb_to_rgba(rest)[4 * (p - 1) + c] == rest[3 * (p - 1) + c]);
            }
        }
        assert forall|p: int| 0 <= p < rgb.len() / 3 implies #[trigger] rgb_to_rgba(rgb)[4 * p
            + 3] == 255 by {
            if p > 0 {
                assert(rgb_to_rgba(rest)[4 * (p - 1) + 3] == 255);
            }
        }
    }
}

/// The RGBA raster of a decoded frame, for RGBA and RGB frames.
pub open spec fn frame_rgba(data: Seq<u8>, ct: PngColorType) -> Option<Seq<u8>> {
    match ct {
        PngColorType::Rgba => Some(data),
        PngColorType::Rgb => Some(rgb_to_rgba(data)),
        _ => None,
    }
}

/// The RGBA raster of a PNG image, for RGBA and RGB images.
pub open spec fn png_rgba(bytes: Seq<u8>) -> Option<(Seq<u8>, u32, u32)> {
    match png_decoding(bytes) {
        Err(_) => None,
        Ok((data, w, h, ct)) => match frame_rgba(data, ct) {
            Some(rgba) => Some((rgba, w, h)),
            None => None,
        },
    }
}

/// The message for a failed decoding step.
pub open spec fn read_error_message(stage: PngReadStage, detail: Seq<char>) -> Seq<char> {
    match stage {
        PngReadStage::ReadInfo => "PNG read_info failed: "@ + detail,
        PngReadStage::OutputBufferSize => "PNG output_buffer_size failed"@,
        PngReadStage::NextFrame => "PNG next_frame failed: "@ + detail,
    }
}

/// The message for an unsupported colour layout.
pub open spec fn unsupported_message(ct: PngColorType) -> Seq<char> {
    "Unsupported PNG color type: "@ + color_type_name(ct)
}

/// The message with which decoding `bytes` fails, where it fails.
pub open spec fn png_error_message(bytes: Seq<u8>) -> Seq<char> {
    match png_decoding(bytes) {
        Err((stage, detail)) => read_error_message(stage, detail),
        Ok((_, _, _, ct)) => unsupported_message(ct),
    }
}

/// The name of a colour layout as it is printed.
pub open spec fn color_type_name(ct: PngColorType) -> Seq<char> {
    match ct {
        PngColorType::Grayscale => "Grayscale"@,
        PngColorType::Rgb => "Rgb"@,
        PngColorType::Indexed => "Indexed"@,
        PngColorType::GrayscaleAlpha => "GrayscaleAlpha"@,
        PngColorType::Rgba => "Rgba"@,
    }
}

fn color_type_name_string(ct: PngColorType) -> (r: String)
    ensures
        r@ == color_type_name(ct),
{
    match ct {
        PngColorType::Grayscale => "Grayscale".to_string(),
        PngColorType::Rgb => "Rgb".to_string(),
        PngColorType::Indexed => "Indexed".to_string(),
        PngColorType::GrayscaleAlpha => "GrayscaleAlpha".to_string(),
        PngColorType::Rgba => "Rgba".to_string(),
    }
}

/// Widens packed RGB samples to RGBA (see `rgb_to_rgba`).
pub fn expand_rgb_to_rgba(rgb: &[u8]) -> (out: Vec<u8>)
    ensures
        out@ == rgb_to_rgba(rgb@),
{
    let len: usize = rgb.len();
    let mut out: Vec<u8> = Vec::new();
    let mut i: usize = 0;
    assert(rgb@.skip(0) == rgb@);
    while i < len
        invariant
            len == rgb@.len(),
            i <= len,
            out@ + rgb_to_rgba(rgb@.skip(i as int)) == rgb_to_rgba(rgb@),
        decreases len - i,
    {
        let end: usize = if len - i > 3 {
            i + 3
        } else {
            len
        };
        let ghost before = out@;
        let ghost rest = rgb@.skip(i as int);
        let mut j: usize = i;
        while j < end
            invariant
                i <= j <= end <= len,
                len == rgb@.len(),
                out@ == before + rgb@.subrange(i as int, j as int),
            decreases end - j,
        {
            out.push(rgb[j]);
            j = j + 1;
            assert(out@ =~= before + rgb@.subrange(i as int, j as int));
        }
        out.push(255);
        proof {
            if len - i > 3 {
                assert(rest.take(3) =~= rgb@.subrange(i as int, end as int));
                assert(rest.skip(3) =~= rgb@.skip(end as int));
                assert(out@ + rgb_to_rgba(rgb@.skip(end as int)) =~= before + rgb_to_rgba(rest));
            } else {
                assert(rest =~= rgb@.subrange(i as int, end as int));
                assert(rgb@.skip(end as int) =~= Seq::<u8>::empty());
                assert(out@ + rgb_to_rgba(rgb@.skip(end as int)) =~= before + rgb_to_rgba(rest));
            }
        }
        i = end;
    }
    assert(rgb@.skip(len as int) =~= Seq::<u8>::empty());
    assert(out@ + Seq::<u8>::empty() =~= out@);
    out
}

fn read_error_message_string(stage: PngReadStage, detail: String) -> (r: String)
    ensures
        r@ == read_error_message(stage, detail@),
{
    match stage {
        PngReadStage::ReadInfo => {
            let mut msg = "PNG read_info failed: ".to_string();
            msg.append(detail.as_str());
            msg
        },
        PngReadStage::OutputBufferSize => "PNG output_buffer_size failed".to_string(),
        PngReadStage::NextFrame => {
            let mut msg = "PNG next_frame failed: ".to_string();
            msg.append(detail.as_str());
            msg
        },
    }
}

/// Turns a decoded frame into an RGBA raster with its width and height.
/// RGBA frames are kept, RGB frames gain an opaque alpha channel; other
/// colour layouts are refused with "Unsupported PNG color type: <layout>".
pub fn frame_to_rgba(frame: PngFrame) -> (r: Result<(Vec<u8>, u32, u32), String>)
    ensures
        r is Ok <==> frame_rgba(frame.data@, frame.color_type) is Some,
        r matches Ok((rgba, w, h)) ==> Some(rgba@) == frame_rgba(frame.data@, frame.color_type)
            && w == frame.width && h == frame.height,
        r matches Err(msg) ==> msg@ == unsupported_message(frame.color_type),
{
    let PngFrame { data, width, height, color_type } = frame;
    match color_type {
        PngColorType::Rgba => Ok((data, width, height)),
        PngColorType::Rgb => {
            let rgba = expand_rgb_to_rgba(data.as_slice());
            Ok((rgba, width, height))
        },
        _ => {
            let mut msg = "Unsupported PNG color type: ".to_string();
            let name = color_type_name_string(color_type);
            msg.append(name.as_str());
            Err(msg)
        },
    }
}

/// Decodes a PNG image into an RGBA raster with its width and height (see
/// `frame_to_rgba`). A failing decoding step is reported as
/// "PNG read_info failed: <error>", "PNG output_buffer_size failed" or
/// "PNG next_frame failed: <error>".
pub fn decode_png_to_rgba(png_bytes: &[u8]) -> (r: Result<(Vec<u8>, u32, u32), String>)
    ensures
        r is Ok <==> png_rgba(png_bytes@) is Some,
        r matches Ok((rgba, w, h)) ==> png_rgba(png_bytes@) == Some((rgba@, w, h)),
        r matches Err(msg) ==> msg@ == png_error_message(png_bytes@),
{
    match read_png_frame(png_bytes) {
        Ok(frame) => frame_to_rgba(frame),
        Err((stage, detail)) => Err(read_error_message_string(stage, detail)),
    }
}

/// The raster that a base64-encoded PNG icon decodes to, if any.
pub open spec fn decoded_icon(icon_b64: Option<Seq<char>>) -> Option<(Seq<u8>, u32, u32)> {
    match icon_b64 {
        None => None,
        Some(text) => match base64_standard_decoding(text) {
            None => None,
            Some(bytes) => png_rgba(bytes),
        },
    }
}

/// Decodes a menu item's icon, given as base64 text of a PNG image, into
/// its RGBA raster, width and height; all three are `None` where there is no
/// icon or it does not decode.
pub fn decode_icon_from_base64(icon_b64: Option<&str>) -> (r: (
    Option<Vec<u8>>,
    Option<u32>,
    Option<u32>,
))
    ensures
        match decoded_icon(
            match icon_b64 {
                Some(t) => Some(t@),
                None => None,
            },
        ) {
            Some((rgba, w, h)) => r.0 matches Some(v) && v@ == rgba && r.1 == Some(w) && r.2
                == Some(h),
            None => r.0 is None && r.1 is None && r.2 is None,
        },
{
    let b64 = match icon_b64 {
        Some(b) => b,
        None => {
            return (None, None, None);
        },
    };
    let png_bytes = match decode_base64_standard(b64) {
        Some(bytes) => bytes,
        None => {
            return (None, None, None);
        },
    };
    match decode_png_to_rgba(png_bytes.as_slice()) {
        Ok((rgba, width, height)) => (Some(rgba), Some(width), Some(height)),
        Err(_) => (None, None, None),
    }
}

} // verus!
