//! RGBA icon rasters: validation, nearest-neighbour scaling, template
//! (alpha-mask) rendering and the conversion into status-bar icon data.

use vstd::prelude::*;
use vstd::arithmetic::div_mod::{
    lemma_fundamental_div_mod, lemma_fundamental_div_mod_converse, lemma_mod_multiples_basic,
    lemma_mod_pos_bound, lemma_div_pos_is_pos,
};
use vstd::slice::slice_to_vec;
use crate::float32::{binary32_sample, lemma_small_sample_exact, sample_coordinate};
use crate::error::TrayIconError;

verus! {

/// Alpha values below this become fully transparent in a template mask,
/// values at or above it fully opaque.
pub const ALPHA_THRESHOLD: u8 = 128;

/// An icon as a packed RGBA raster, four bytes per pixel, row by row.
#[derive(Debug, Clone)]
pub struct PlatformIcon {
    pub rgba: Vec<u8>,
    pub width: u32,
    pub height: u32,
}

/// Why an icon raster was refused.
#[derive(Debug, Clone, PartialEq, Eq, Structural)]
pub enum BadIcon {
    /// The number of bytes is not four times `width * height`.
    DimensionsVsPixelCount { width: u32, height: u32, width_x_height: usize, pixel_count: usize },
}

impl PlatformIcon {
    /// The raster holds exactly `width * height` RGBA pixels.
    pub open spec fn wf(&self) -> bool {
        self.rgba@.len() == 4 * self.width * self.height
    }

    /// Builds an icon from a packed RGBA raster, refusing one whose length
    /// is not four bytes per pixel.
    pub fn from_rgba(rgba: Vec<u8>, width: u32, height: u32) -> (r: Result<Self, BadIcon>)
        requires
            rgba@.len() != 4 * width * height ==> width * height <= u32::MAX,
        ensures
            r is Ok <==> rgba@.len() == 4 * width * height,
            r matches Ok(icon) ==> icon.rgba@ == rgba@ && icon.width == width && icon.height
                == height && icon.wf(),
            r matches Err(e) ==> e == (BadIcon::DimensionsVsPixelCount {
                width,
                height,
                width_x_height: (width * height) as usize,
                pixel_count: (rgba@.len() / 4) as usize,
            }),
    {
        assert(width as int * height as int <= u64::MAX) by (nonlinear_arith);
        let pixels: u64 = width as u64 * height as u64;
        let len: usize = rgba.len();
        let len64: u64 = len as u64;
        assert(4 * width * height == 4 * pixels) by (nonlinear_arith)
            requires
                pixels == width * height,
        ;
        if len64 % 4 != 0 || len64 / 4 != pixels {
            assert(rgba@.len() != 4 * width * height);
            let width_x_height: usize = (width * height) as usize;
            return Err(
                BadIcon::DimensionsVsPixelCount {
                    width,
                    height,
                    width_x_height,
                    pixel_count: len / 4,
                },
            );
        }
        Ok(PlatformIcon { rgba, width, height })
    }
}

/// Icon data handed to the status bar: a light and a dark rendering and the
/// square edge length in pixels.
#[derive(Debug, Clone)]
pub struct StatusBarIcon {
    pub white: Option<Vec<u8>>,
    pub black: Option<Vec<u8>>,
    pub size: u32,
}

impl Default for StatusBarIcon {
    fn default() -> (r: Self)
        ensures
            r.white is None,
            r.black is None,
            r.size == 0,
    {
        StatusBarIcon { white: None, black: None, size: 0 }
    }
}

// ---------------------------------------------------------------------------
// Template (alpha-mask) rendering
// ---------------------------------------------------------------------------

/// Byte `i` of the template rendering of `rgba` in grey level `color`: the
/// pixel's alpha decides between transparent black and opaque `color`.
pub open spec fn monochrome_byte(rgba: Seq<u8>, color: u8, i: int) -> u8 {
    let alpha = rgba[4 * (i / 4) + 3];
    if alpha < ALPHA_THRESHOLD {
        0u8
    } else if i % 4 == 3 {
        255u8
    } else {
        color
    }
}

/// The template rendering of a raster whose length is a multiple of four.
pub open spec fn monochrome(rgba: Seq<u8>, color: u8) -> Seq<u8> {
    Seq::new(rgba.len(), |i: int| monochrome_byte(rgba, color, i))
}

/// Renders the raster as a solid-colour silhouette: each pixel with alpha
/// below the threshold becomes `[0, 0, 0, 0]`, every other pixel
/// `[color, color, color, 255]`.
pub fn to_monochrome(rgba: &[u8], color: u8) -> (out: Vec<u8>)
    requires
        rgba@.len() % 4 == 0,
    ensures
        out@ == monochrome(rgba@, color),
{
    let len: usize = rgba.len();
    let n: usize = len / 4;
    let mut out: Vec<u8> = Vec::new();
    let mut p: usize = 0;
    while p < n
        invariant
            len == rgba@.len(),
            n == rgba@.len() / 4,
            rgba@.len() % 4 == 0,
            p <= n,
            out@.len() == 4 * p,
            forall|i: int| 0 <= i < out@.len() ==> out@[i] == monochrome_byte(rgba@, color, i),
        decreases n - p,
    {
        assert(4 * p + 3 < rgba@.len());
        let a: u8 = rgba[4 * p + 3];
        let (c, alpha): (u8, u8) = if a < ALPHA_THRESHOLD {
            (0, 0)
        } else {
            (color, 255)
        };
        let ghost before = out@;
        out.push(c);
        out.push(c);
        out.push(c);
        out.push(alpha);
        assert forall|i: int| 0 <= i < out@.len() implies out@[i] == monochrome_byte(
            rgba@,
            color,
            i,
        ) by {
            if i >= 4 * p {
                assert(i / 4 == p);
            } else {
                assert(out@[i] == before[i]);
            }
        }
        p = p + 1;
    }
    assert(out@ =~= monochrome(rgba@, color));
    out
}

// ---------------------------------------------------------------------------
// Nearest-neighbour scaling
// ---------------------------------------------------------------------------

/// The source pixel sampled for destination pixel `(x, y)`, as a row-major
/// pixel index: column `x·src_w/dst_w` of row `y·src_h/dst_h`, each computed
/// in single precision and truncated (see `binary32_sample`).
pub open spec fn sample_index(x: int, y: int, src_w: int, src_h: int, dst_w: int, dst_h: int) -> int {
    binary32_sample(y as u32, src_h as u32, dst_h as u32) * src_w + binary32_sample(
        x as u32,
        src_w as u32,
        dst_w as u32,
    )
}

/// Byte `i` of the scaled raster.
pub open spec fn scaled_byte(
    rgba: Seq<u8>,
    src_w: int,
    src_h: int,
    dst_w: int,
    dst_h: int,
    i: int,
) -> u8 {
    let p = i / 4;
    rgba[4 * sample_index(p % dst_w, p / dst_w, src_w, src_h, dst_w, dst_h) + i % 4]
}

/// The raster scaled from `src_w × src_h` to `dst_w × dst_h` pixels; equal
/// dimensions leave it as it is.
pub open spec fn scaled_rgba(rgba: Seq<u8>, src_w: u32, src_h: u32, dst_w: u32, dst_h: u32) -> Seq<u8> {
    if src_w == dst_w && src_h == dst_h {
        rgba
    } else {
        Seq::new(
            (4 * dst_w * dst_h) as nat,
            |i: int| scaled_byte(rgba, src_w as int, src_h as int, dst_w as int, dst_h as int, i),
        )
    }
}

/// Scaling is defined: every sampled source pixel lies in the raster (and
/// its index fits in 32 bits), and the result fits in memory.
pub open spec fn scale_defined(len: int, src_w: u32, src_h: u32, dst_w: u32, dst_h: u32) -> bool {
    (src_w == dst_w && src_h == dst_h) || {
        &&& 4 * dst_w * dst_h <= usize::MAX
        &&& forall|x: int, y: int|
            0 <= x < dst_w && 0 <= y < dst_h ==> {
                let s = #[trigger] sample_index(
                    x,
                    y,
                    src_w as int,
                    src_h as int,
                    dst_w as int,
                    dst_h as int,
                );
                &&& s <= u32::MAX
                &&& 4 * s + 3 < len
            }
    }
}

proof fn lemma_pixel_position(p: int, x: int, y: int, w: int)
    requires
        0 <= x < w,
        0 <= y,
        p == y * w + x,
    ensures
        p % w == x,
        p / w == y,
{
    lemma_fundamental_div_mod_converse(p, w, y, x);
}

/// Scales the raster to `dst_w × dst_h` by nearest-neighbour sampling:
/// destination pixel `(x, y)` copies source pixel
/// `((x·src_w/dst_w) as u32, (y·src_h/dst_h) as u32)`, computed in single
/// precision. Equal dimensions copy the raster.
pub fn scale_rgba(rgba: &[u8], src_w: u32, src_h: u32, dst_w: u32, dst_h: u32) -> (out: Vec<u8>)
    requires
        scale_defined(rgba@.len() as int, src_w, src_h, dst_w, dst_h),
    ensures
        out@ == scaled_rgba(rgba@, src_w, src_h, dst_w, dst_h),
{
    if src_w == dst_w && src_h == dst_h {
        return slice_to_vec(rgba);
    }
    let len: usize = rgba.len();
    let mut result: Vec<u8> = Vec::new();
    let mut dst_y: u32 = 0;
    while dst_y < dst_h
        invariant
            scale_defined(rgba@.len() as int, src_w, src_h, dst_w, dst_h),
            len == rgba@.len(),
            !(src_w == dst_w && src_h == dst_h),
            dst_y <= dst_h,
            result@.len() == 4 * (dst_y * dst_w),
            forall|i: int|
                0 <= i < result@.len() ==> result@[i] == scaled_byte(
                    rgba@,
                    src_w as int,
                    src_h as int,
                    dst_w as int,
                    dst_h as int,
                    i,
                ),
        decreases dst_h - dst_y,
    {
        let mut dst_x: u32 = 0;
        while dst_x < dst_w
            invariant
                scale_defined(rgba@.len() as int, src_w, src_h, dst_w, dst_h),
                len == rgba@.len(),
                !(src_w == dst_w && src_h == dst_h),
                dst_y < dst_h,
                dst_x <= dst_w,
                result@.len() == 4 * (dst_y * dst_w + dst_x),
                forall|i: int|
                    0 <= i < result@.len() ==> result@[i] == scaled_byte(
                        rgba@,
                        src_w as int,
                        src_h as int,
                        dst_w as int,
                        dst_h as int,
                        i,
                    ),
            decreases dst_w - dst_x,
        {
            let src_x: u64 = sample_coordinate(dst_x, src_w, dst_w) as u64;
            let src_y: u64 = sample_coordinate(dst_y, src_h, dst_h) as u64;
            let ghost s = sample_index(
                dst_x as int,
                dst_y as int,
                src_w as int,
                src_h as int,
                dst_w as int,
                dst_h as int,
            );
            assert(s <= u32::MAX && 4 * s + 3 < rgba@.len());
            assert(src_y * src_w + src_x == s);
            assert(src_y * src_w <= s) by (nonlinear_arith)
                requires
                    src_y * src_w + src_x == s,
                    src_x >= 0,
            ;
            let row_start: u64 = src_y * src_w as u64;
            let pixel: usize = (row_start + src_x) as usize;
            let src_idx: usize = pixel * 4;
            let ghost before = result@;
            let ghost p: int = dst_y * dst_w + dst_x;
            assert(result@.len() == 4 * p) by (nonlinear_arith)
                requires
                    result@.len() == 4 * (dst_y * dst_w + dst_x),
                    p == dst_y * dst_w + dst_x,
            ;
            result.push(rgba[src_idx]);
            result.push(rgba[src_idx + 1]);
            result.push(rgba[src_idx + 2]);
            result.push(rgba[src_idx + 3]);
            proof {
                lemma_pixel_position(p, dst_x as int, dst_y as int, dst_w as int);
                assert forall|i: int| 0 <= i < result@.len() implies result@[i] == scaled_byte(
                    rgba@,
                    src_w as int,
                    src_h as int,
                    dst_w as int,
                    dst_h as int,
                    i,
                ) by {
                    if i >= 4 * p {
                        assert(i / 4 == p);
                    } else {
                        assert(result@[i] == before[i]);
                    }
                }
            }
            dst_x = dst_x + 1;
        }
        assert(4 * (dst_y * dst_w + dst_w) == 4 * ((dst_y + 1) * dst_w)) by (nonlinear_arith);
        dst_y = dst_y + 1;
    }
    assert(4 * (dst_h * dst_w) == 4 * dst_w * dst_h) by (nonlinear_arith);
    assert(result@ =~= scaled_rgba(rgba@, src_w, src_h, dst_w, dst_h));
    result
}

/// Whether scaling a raster of `len` bytes is defined (see
/// `scale_defined`).
pub fn scale_is_defined(len: usize, src_w: u32, src_h: u32, dst_w: u32, dst_h: u32) -> (r: bool)
    ensures
        r == scale_defined(len as int, src_w, src_h, dst_w, dst_h),
{
    if src_w == dst_w && src_h == dst_h {
        return true;
    }
    assert(4 * (dst_w as u128) * (dst_h as u128) <= 0x4_0000_0000_0000_0000) by (nonlinear_arith);
    let total: u128 = 4 * (dst_w as u128) * (dst_h as u128);
    if total > usize::MAX as u128 {
        return false;
    }
    let mut y: u32 = 0;
    while y < dst_h
        invariant
            y <= dst_h,
            !(src_w == dst_w && src_h == dst_h),
            4 * dst_w * dst_h <= usize::MAX,
            forall|xx: int, yy: int|
                0 <= xx < dst_w && 0 <= yy < y ==> {
                    let s = #[trigger] sample_index(
                        xx,
                        yy,
                        src_w as int,
                        src_h as int,
                        dst_w as int,
                        dst_h as int,
                    );
                    &&& s <= u32::MAX
                    &&& 4 * s + 3 < len
                },
        decreases dst_h - y,
    {
        let mut x: u32 = 0;
        while x < dst_w
            invariant
                x <= dst_w,
                y < dst_h,
                !(src_w == dst_w && src_h == dst_h),
                4 * dst_w * dst_h <= usize::MAX,
                forall|xx: int, yy: int|
                    0 <= xx < dst_w && 0 <= yy < y ==> {
                        let s = #[trigger] sample_index(
                            xx,
                            yy,
                            src_w as int,
                            src_h as int,
                            dst_w as int,
                            dst_h as int,
                        );
                        &&& s <= u32::MAX
                        &&& 4 * s + 3 < len
                    },
                forall|xx: int|
                    0 <= xx < x ==> {
                        let s = #[trigger] sample_index(
                            xx,
                            y as int,
                            src_w as int,
                            src_h as int,
                            dst_w as int,
                            dst_h as int,
                        );
                        &&& s <= u32::MAX
                        &&& 4 * s + 3 < len
                    },
            decreases dst_w - x,
        {
            let sx: u128 = sample_coordinate(x, src_w, dst_w) as u128;
            let sy: u128 = sample_coordinate(y, src_h, dst_h) as u128;
            assert(sy * src_w <= 0xffff_ffff_ffff_ffff) by (nonlinear_arith)
                requires
                    sy <= 0xffff_ffff,
                    src_w <= 0xffff_ffff,
            ;
            let s: u128 = sy * (src_w as u128) + sx;
            let ghost si = sample_index(
                x as int,
                y as int,
                src_w as int,
                src_h as int,
                dst_w as int,
                dst_h as int,
            );
            assert(s == si);
            if s > u32::MAX as u128 || 4 * s + 3 >= len as u128 {
                return false;
            }
            x = x + 1;
        }
        y = y + 1;
    }
    true
}

// ---------------------------------------------------------------------------
// Status-bar icon conversion
// ---------------------------------------------------------------------------

/// The edge of the square status-bar icon: the shorter side of the raster.
pub open spec fn square_edge(icon: PlatformIcon) -> u32 {
    if icon.width <= icon.height {
        icon.width
    } else {
        icon.height
    }
}

/// The raster scaled to `square_edge × square_edge`.
pub open spec fn square_raster(icon: PlatformIcon) -> Seq<u8> {
    scaled_rgba(icon.rgba@, icon.width, icon.height, square_edge(icon), square_edge(icon))
}

/// The conversion is defined: the square scaling is, and a template
/// rendering gets whole pixels.
pub open spec fn icon_conversion_defined(icon: PlatformIcon, is_template: bool) -> bool {
    &&& scale_defined(
        icon.rgba@.len() as int,
        icon.width,
        icon.height,
        square_edge(icon),
        square_edge(icon),
    )
    &&& is_template ==> square_raster(icon).len() % 4 == 0
}

/// Whether converting the icon is defined (see `icon_conversion_defined`).
pub fn icon_conversion_is_defined(icon: &PlatformIcon, is_template: bool) -> (r: bool)
    ensures
        r == icon_conversion_defined(*icon, is_template),
{
    let size: u32 = if icon.width <= icon.height {
        icon.width
    } else {
        icon.height
    };
    let len: usize = icon.rgba.len();
    if !scale_is_defined(len, icon.width, icon.height, size, size) {
        return false;
    }
    if icon.width == size && icon.height == size {
        !is_template || len % 4 == 0
    } else {
        proof {
            assert(square_raster(*icon).len() == 4 * size * size);
            assert(4 * size * size == (size * size) * 4) by (nonlinear_arith);
            lemma_mod_multiples_basic(size * size, 4);
        }
        true
    }
}

/// The renderings of a status-bar icon: template icons become a white and a
/// black silhouette, other icons are shown as they are in both slots.
pub open spec fn status_bar_renderings(icon: PlatformIcon, is_template: bool) -> (Seq<u8>, Seq<u8>) {
    if is_template {
        (monochrome(square_raster(icon), 255), monochrome(square_raster(icon), 0))
    } else {
        (square_raster(icon), square_raster(icon))
    }
}

/// Converts an icon into status-bar icon data: the raster is scaled to a
/// square of its shorter side, then rendered for both slots (as silhouettes
/// when `is_template`).
pub fn icon_to_status_bar_icon(icon: &PlatformIcon, is_template: bool) -> (r: Result<
    StatusBarIcon,
    TrayIconError,
>)
    requires
        icon_conversion_defined(*icon, is_template),
    ensures
        r is Ok,
        r matches Ok(s) ==> s.size == square_edge(*icon) && s.white is Some && s.black is Some,
        r matches Ok(s) ==> s.white.unwrap()@ == status_bar_renderings(*icon, is_template).0,
        r matches Ok(s) ==> s.black.unwrap()@ == status_bar_renderings(*icon, is_template).1,
{
    let rgba = &icon.rgba;
    let (width, height) = (icon.width, icon.height);
    let size: u32 = if width <= height {
        width
    } else {
        height
    };
    let scaled_rgba = if width != size || height != size {
        scale_rgba(rgba.as_slice(), width, height, size, size)
    } else {
        rgba.clone()
    };
    let (white, black) = if is_template {
        (to_monochrome(scaled_rgba.as_slice(), 255), to_monochrome(scaled_rgba.as_slice(), 0))
    } else {
        (scaled_rgba.clone(), scaled_rgba)
    };
    Ok(StatusBarIcon { white: Some(white), black: Some(black), size })
}

// ---------------------------------------------------------------------------
// Laws
// ---------------------------------------------------------------------------

proof fn lemma_sample_in_raster(x: int, y: int, src_w: int, src_h: int, dst_w: int, dst_h: int)
    requires
        0 <= x < dst_w <= src_w < 0x1000,
        0 <= y < dst_h <= src_h < 0x1000,
    ensures
        0 <= sample_index(x, y, src_w, src_h, dst_w, dst_h) < src_w * src_h,
{
    assert(x * src_w < 0x100_0000 && y * src_h < 0x100_0000) by (nonlinear_arith)
        requires
            0 <= x < 0x1000,
            0 <= src_w < 0x1000,
            0 <= y < 0x1000,
            0 <= src_h < 0x1000,
    ;
    lemma_small_sample_exact(x as u32, src_w as u32, dst_w as u32);
    lemma_small_sample_exact(y as u32, src_h as u32, dst_h as u32);
    let r = y * src_h / dst_h;
    let c = x * src_w / dst_w;
    assert(0 <= r < src_h) by (nonlinear_arith)
        requires
            0 <= y < dst_h,
            r == y * src_h / dst_h,
            src_h > 0,
    ;
    assert(0 <= c < src_w) by (nonlinear_arith)
        requires
            0 <= x < dst_w,
            c == x * src_w / dst_w,
            src_w > 0,
    ;
    assert(0 <= r * src_w + c < src_w * src_h) by (nonlinear_arith)
        requires
            0 <= r < src_h,
            0 <= c < src_w,
    ;
}

/// Every well-formed icon of fewer than 4096 pixels a side converts, in
/// either rendering: there the single-precision sample coordinates are
/// exact and the square scaling only samples pixels of the raster. (Larger
/// icons may sample past the raster: at 5001×5000 the last column sampled
/// is 5000.)
pub proof fn lemma_well_formed_icon_converts(icon: PlatformIcon, is_template: bool)
    requires
        icon.wf(),
        icon.width < 0x1000,
        icon.height < 0x1000,
    ensures
        icon_conversion_defined(icon, is_template),
{
    let w = icon.width;
    let h = icon.height;
    let s = square_edge(icon);
    if !(w == s && h == s) {
        assert(4 * s * s <= 4 * w * h && 4 * w * h < 0x4000_0000) by (nonlinear_arith)
            requires
                s <= w < 0x1000,
                s <= h < 0x1000,
        ;
        assert(4 * w * h == 4 * (w * h)) by (nonlinear_arith);
        assert forall|x: int, y: int| 0 <= x < s && 0 <= y < s implies {
            let p = #[trigger] sample_index(x, y, w as int, h as int, s as int, s as int);
            &&& p <= u32::MAX
            &&& 4 * p + 3 < icon.rgba@.len()
        } by {
            lemma_sample_in_raster(x, y, w as int, h as int, s as int, s as int);
            assert(w * h < 0x100_0000) by (nonlinear_arith)
                requires
                    w < 0x1000,
                    h < 0x1000,
            ;
        }
        assert(square_raster(icon).len() == 4 * s * s);
        assert(4 * s * s == (s * s) * 4) by (nonlinear_arith);
        lemma_mod_multiples_basic(s * s, 4);
    } else {
        assert(4 * w * h == 4 * (w * h)) by (nonlinear_arith);
    }
}

/// A square icon that is not a template is shown unchanged in both slots.
pub proof fn lemma_square_plain_icon_shown_as_is(icon: PlatformIcon)
    requires
        icon.width == icon.height,
    ensures
        status_bar_renderings(icon, false) == (icon.rgba@, icon.rgba@),
{
}

/// Rendering a silhouette twice in the same colour changes nothing: the
/// first rendering leaves only fully transparent and fully opaque pixels.
pub proof fn lemma_monochrome_idempotent(rgba: Seq<u8>, color: u8)
    requires
        rgba.len() % 4 == 0,
    ensures
        monochrome(monochrome(rgba, color), color) == monochrome(rgba, color),
{
    let m = monochrome(rgba, color);
    assert forall|i: int| 0 <= i < rgba.len() implies #[trigger] monochrome(m, color)[i] == m[i] by {
        let a = 4 * (i / 4) + 3;
        assert(a / 4 == i / 4);
        assert(a % 4 == 3);
    }
    assert(monochrome(m, color) =~= m);
}

/// The white and black silhouettes share one alpha mask: they agree on every
/// alpha byte, and a colour byte differs exactly where the pixel is opaque.
pub proof fn lemma_silhouettes_share_mask(rgba: Seq<u8>, i: int)
    requires
        rgba.len() % 4 == 0,
        0 <= i < rgba.len(),
    ensures
        i % 4 == 3 ==> monochrome(rgba, 255)[i] == monochrome(rgba, 0)[i],
        i % 4 != 3 ==> (monochrome(rgba, 255)[i] != monochrome(rgba, 0)[i] <==> rgba[4 * (i / 4)
            + 3] >= ALPHA_THRESHOLD),
{
}

/// Scaling a raster whose bytes are all equal yields a raster of that same
/// byte.
pub proof fn lemma_scale_preserves_uniform(
    rgba: Seq<u8>,
    src_w: u32,
    src_h: u32,
    dst_w: u32,
    dst_h: u32,
    b: u8,
)
    requires
        scale_defined(rgba.len() as int, src_w, src_h, dst_w, dst_h),
        forall|i: int| 0 <= i < rgba.len() ==> rgba[i] == b,
    ensures
        forall|i: int|
            0 <= i < scaled_rgba(rgba, src_w, src_h, dst_w, dst_h).len() ==> scaled_rgba(
                rgba,
                src_w,
                src_h,
                dst_w,
                dst_h,
            )[i] == b,
{
    if !(src_w == dst_w && src_h == dst_h) {
        assert forall|i: int|
            0 <= i < scaled_rgba(rgba, src_w, src_h, dst_w, dst_h).len() implies scaled_rgba(
            rgba,
            src_w,
            src_h,
            dst_w,
            dst_h,
        )[i] == b by {
            let p = i / 4;
            let dw = dst_w as int;
            let dh = dst_h as int;
            assert(4 * dst_w * dst_h == 4 * (dw * dh)) by (nonlinear_arith)
                requires
                    dw == dst_w,
                    dh == dst_h,
            ;
            assert(0 <= p < dw * dh);
            assert(dw > 0) by (nonlinear_arith)
                requires
                    0 <= p < dw * dh,
                    dh >= 0,
                    dw >= 0,
            ;
            lemma_fundamental_div_mod(p, dw);
            lemma_mod_pos_bound(p, dw);
            lemma_div_pos_is_pos(p, dw);
            assert(p / dw < dh) by (nonlinear_arith)
                requires
                    p == dw * (p / dw) + p % dw,
                    0 <= p % dw,
                    p < dw * dh,
                    dw > 0,
            ;
            let s = sample_index(
                p % (dst_w as int),
                p / (dst_w as int),
                src_w as int,
                src_h as int,
                dst_w as int,
                dst_h as int,
            );
            assert(4 * s + 3 < rgba.len());
        }
    }
}

} // verus!
