//! Screenshot post-processing: fitting a capture inside the requested
//! limits, the coordinate mappings between the captured and the delivered
//! image, and the capture report.
use vstd::prelude::*;

use base64::Engine;
use image::GenericImageView;

use crate::config::ImageFormat;
use crate::error::TendrilError;
use crate::model::{Bounds, CaptureInput, CaptureOutput, CoordinateTransform};
use crate::platform::AdapterInfo;
use crate::text::{self, owned};

verus! {

/// The scale `numerator / denominator` chosen for a capture: the width limit
/// applies when it is below the width, then the height limit when it is below
/// the height and smaller still.
pub open spec fn resize_scale(ow: u32, oh: u32, mw: Option<u32>, mh: Option<u32>) -> (int, int) {
    let (n1, d1) = match mw {
        Some(w) => if w < ow {
            (w as int, ow as int)
        } else {
            (1int, 1int)
        },
        None => (1int, 1int),
    };
    match mh {
        Some(h) => if h < oh && h * d1 < n1 * oh {
            (h as int, oh as int)
        } else {
            (n1, d1)
        },
        None => (n1, d1),
    }
}

/// `value * numerator / denominator`, rounded half up.
pub open spec fn rounded_ratio_spec(value: int, numerator: int, denominator: int) -> int {
    (value * numerator + denominator / 2) / denominator
}

/// The delivered size of a capture: unchanged unless a limit is smaller,
/// otherwise both sides scaled by the chosen ratio, rounded, and at least one.
pub open spec fn resized_spec(ow: u32, oh: u32, mw: Option<u32>, mh: Option<u32>) -> (u32, u32) {
    let (n, d) = resize_scale(ow, oh, mw, mh);
    if n >= d {
        (ow, oh)
    } else {
        let w = rounded_ratio_spec(ow as int, n, d);
        let h = rounded_ratio_spec(oh as int, n, d);
        ((if w < 1 { 1 } else { w }) as u32, (if h < 1 { 1 } else { h }) as u32)
    }
}

proof fn lemma_scale_bounds(ow: u32, oh: u32, mw: Option<u32>, mh: Option<u32>)
    ensures
        ({
            let (n, d) = resize_scale(ow, oh, mw, mh);
            &&& 0 <= n
            &&& 1 <= d <= u32::MAX
            &&& n <= u32::MAX
            &&& n < d ==> (d == ow || d == oh)
        }),
{
}

/// Rounding `value * n / d` with `n < d` never exceeds `value`.
proof fn lemma_rounded_below(value: int, n: int, d: int)
    requires
        0 <= value,
        0 <= n < d,
    ensures
        0 <= rounded_ratio_spec(value, n, d) <= value,
{
    assert(value * n + d / 2 < (value + 1) * d) by (nonlinear_arith)
        requires
            0 <= value,
            0 <= n <= d - 1,
            d > 0,
    {
        assert(value * n <= value * (d - 1));
        assert(value * (d - 1) == value * d - value);
        assert((value + 1) * d == value * d + d);
    }
    assert((value * n + d / 2) / d <= value) by (nonlinear_arith)
        requires
            0 <= value * n + d / 2 < (value + 1) * d,
            d > 0,
    ;
    assert(0 <= (value * n + d / 2) / d) by (nonlinear_arith)
        requires
            0 <= value * n + d / 2,
            d > 0,
    ;
}

fn rounded_ratio(value: u64, numerator: u64, denominator: u64) -> (r: u64)
    requires
        denominator > 0,
        value <= u32::MAX,
        numerator <= u32::MAX,
        denominator <= u32::MAX,
    ensures
        r == rounded_ratio_spec(value as int, numerator as int, denominator as int),
{
    assert(value * numerator <= 0xffff_ffff * 0xffff_ffff) by (nonlinear_arith)
        requires
            value <= 0xffff_ffff,
            numerator <= 0xffff_ffff,
    ;
    (value * numerator + denominator / 2) / denominator
}

/// Fits `original` inside the optional width and height limits, keeping the
/// aspect ratio.
pub fn resized_dimensions(original_width: u32, original_height: u32, max_width: Option<u32>, max_height: Option<u32>) -> (r: (u32, u32))
    ensures
        r == resized_spec(original_width, original_height, max_width, max_height),
{
    let mut scale_numerator: u64 = 1;
    let mut scale_denominator: u64 = 1;
    match max_width {
        Some(width) => {
            let cn = width as u64;
            let cd = original_width as u64;
            if cn < cd && cn * scale_denominator < scale_numerator * cd {
                scale_numerator = cn;
                scale_denominator = cd;
            }
        },
        None => {},
    }
    match max_height {
        Some(height) => {
            let cn = height as u64;
            let cd = original_height as u64;
            assert(cn * scale_denominator <= 0xffff_ffff * 0xffff_ffff) by (nonlinear_arith)
                requires
                    cn <= 0xffff_ffff,
                    scale_denominator <= 0xffff_ffff,
            ;
            assert(scale_numerator * cd <= 0xffff_ffff * 0xffff_ffff) by (nonlinear_arith)
                requires
                    cd <= 0xffff_ffff,
                    scale_numerator <= 0xffff_ffff,
            ;
            if cn < cd && cn * scale_denominator < scale_numerator * cd {
                scale_numerator = cn;
                scale_denominator = cd;
            }
        },
        None => {},
    }
    proof {
        lemma_scale_bounds(original_width, original_height, max_width, max_height);
    }
    if scale_numerator >= scale_denominator {
        return (original_width, original_height);
    }
    let width = rounded_ratio(original_width as u64, scale_numerator, scale_denominator);
    let height = rounded_ratio(original_height as u64, scale_numerator, scale_denominator);
    proof {
        lemma_rounded_below(original_width as int, scale_numerator as int, scale_denominator as int);
        lemma_rounded_below(original_height as int, scale_numerator as int, scale_denominator as int);
    }
    let w: u64 = if width < 1 { 1 } else { width };
    let h: u64 = if height < 1 { 1 } else { height };
    (w as u32, h as u32)
}

/// The delivered size is at least one pixel each way, never larger than the
/// capture, and within each given limit (a zero limit counting as one).
pub proof fn lemma_resized_within_limits(ow: u32, oh: u32, mw: Option<u32>, mh: Option<u32>)
    requires
        ow >= 1,
        oh >= 1,
    ensures
        ({
            let (w, h) = resized_spec(ow, oh, mw, mh);
            &&& 1 <= w <= ow
            &&& 1 <= h <= oh
            &&& (mw matches Some(l) ==> w <= (if l < 1 { 1 } else { l }))
            &&& (mh matches Some(l) ==> h <= (if l < 1 { 1 } else { l }))
        }),
{
    let (n, d) = resize_scale(ow, oh, mw, mh);
    lemma_scale_bounds(ow, oh, mw, mh);
    match mw {
        Some(l) => if l < ow {
            lemma_scale_le_width(ow, oh, l, mh);
            assert(n < d) by (nonlinear_arith)
                requires
                    n * ow <= l * d,
                    l < ow,
                    d >= 1,
                    n >= 0,
            ;
        },
        None => {},
    }
    match mh {
        Some(l) => if l < oh {
            lemma_scale_le_height(ow, oh, mw, l);
            assert(n < d) by (nonlinear_arith)
                requires
                    n * oh <= l * d,
                    l < oh,
                    d >= 1,
                    n >= 0,
            ;
        },
        None => {},
    }
    if n < d {
        lemma_rounded_below(ow as int, n, d);
        lemma_rounded_below(oh as int, n, d);
        match mw {
            Some(l) => if l < ow {
                lemma_round_le_limit(ow as int, l as int, n, d);
            },
            None => {},
        }
        match mh {
            Some(l) => if l < oh {
                lemma_round_le_limit(oh as int, l as int, n, d);
            },
            None => {},
        }
    }
}

/// Rounding brackets the exact value: `w * d` lies within half a
/// denominator below and above `v * n`.
proof fn lemma_round_bracket(v: int, n: int, d: int)
    requires
        0 <= v,
        0 <= n,
        0 < d,
    ensures
        ({
            let w = rounded_ratio_spec(v, n, d);
            &&& w >= 0
            &&& w * d <= v * n + d / 2
            &&& v * n + d / 2 < w * d + d
        }),
{
    let q = v * n + d / 2;
    assert(q >= 0) by (nonlinear_arith)
        requires
            0 <= v,
            0 <= n,
            0 < d,
            q == v * n + d / 2,
    ;
    vstd::arithmetic::div_mod::lemma_fundamental_div_mod(q, d);
    vstd::arithmetic::div_mod::lemma_mod_pos_bound(q, d);
    assert(q / d >= 0) by (nonlinear_arith)
        requires
            q >= 0,
            d > 0,
            q == d * (q / d) + q % d,
            q % d < d,
    ;
}

/// Scaling one side by `l / v` and rounding gives back `l`.
proof fn lemma_round_exact(v: int, l: int)
    requires
        v >= 1,
        l >= 0,
    ensures
        rounded_ratio_spec(v, l, v) == l,
{
    vstd::arithmetic::div_mod::lemma_div_multiples_vanish_fancy(l, v / 2, v);
    assert(v * l + v / 2 == v * l + v / 2);
    assert(l * v == v * l) by (nonlinear_arith);
}

/// Two sides rounded from one scale keep their cross products within the
/// sum of the sides.
proof fn lemma_cross_within(ow: int, oh: int, n: int, d: int, w: int, h: int)
    requires
        0 <= ow,
        0 <= oh,
        0 <= n,
        0 < d,
        w * d <= ow * n + d / 2,
        ow * n + d / 2 < w * d + d,
        h * d <= oh * n + d / 2,
        oh * n + d / 2 < h * d + d,
    ensures
        -(ow + oh) <= w * oh - h * ow <= ow + oh,
{
    let d2 = d / 2;
    assert(0 <= d2 <= d);
    assert((w * oh - h * ow) * d <= (ow + oh) * d) by (nonlinear_arith)
        requires
            0 <= ow,
            0 <= oh,
            0 <= d2 <= d,
            w * d <= ow * n + d2,
            oh * n + d2 < h * d + d,
    {
        assert(w * d * oh <= (ow * n + d2) * oh);
        assert((oh * n + d2 - d) * ow <= h * d * ow);
    }
    assert(-(ow + oh) * d <= (w * oh - h * ow) * d) by (nonlinear_arith)
        requires
            0 <= ow,
            0 <= oh,
            0 <= d2 <= d,
            ow * n + d2 < w * d + d,
            h * d <= oh * n + d2,
    {
        assert((ow * n + d2 - d) * oh <= w * d * oh);
        assert(h * d * ow <= (oh * n + d2) * ow);
    }
    vstd::arithmetic::mul::lemma_mul_inequality_converse(w * oh - h * ow, ow + oh, d);
    vstd::arithmetic::mul::lemma_mul_inequality_converse(-(ow + oh), w * oh - h * ow, d);
}

/// A side that rounds to nothing and is raised to one still keeps the cross
/// products within the sum of the sides.
proof fn lemma_cross_raised(ow: int, oh: int, n: int, d: int, h: int)
    requires
        0 <= ow,
        0 <= oh,
        0 <= n,
        0 < d,
        ow * n + d / 2 < d,
        h == 1 || (h >= 1 && h * d <= oh * n + d / 2),
    ensures
        -(ow + oh) <= oh - h * ow <= ow + oh,
{
    if h != 1 {
        let d2 = d / 2;
        assert(h * ow <= ow + oh) by (nonlinear_arith)
            requires
                0 <= ow,
                0 <= oh,
                0 <= n,
                0 <= d2,
                d > 0,
                ow * n + d2 < d,
                h * d <= oh * n + d2,
        {
            assert(h * d * ow <= (oh * n + d2) * ow);
            assert(oh * (ow * n) <= oh * d);
            assert(d2 * ow <= d * ow);
            assert(h * ow * d <= (ow + oh) * d);
        }
    }
    assert(h * ow >= 0) by (nonlinear_arith)
        requires
            h >= 1,
            ow >= 0,
    ;
}

/// A resized capture keeps the aspect ratio up to rounding: its sides
/// `(w, h)` satisfy `|w * oh - h * ow| <= ow + oh`. And a capture that is
/// resized at all meets one of its limits exactly (a zero limit counting as
/// one): the width limit or the height limit is the delivered side.
pub proof fn law_resize_keeps_aspect(ow: u32, oh: u32, mw: Option<u32>, mh: Option<u32>)
    ensures
        ({
            let (w, h) = resized_spec(ow, oh, mw, mh);
            &&& -(ow + oh) <= w * oh - h * ow <= ow + oh
            &&& (w, h) != (ow, oh) ==> {
                ||| mw matches Some(l) && w == (if l < 1 { 1 } else { l })
                ||| mh matches Some(l) && h == (if l < 1 { 1 } else { l })
            }
        }),
{
    let (n, d) = resize_scale(ow, oh, mw, mh);
    lemma_scale_bounds(ow, oh, mw, mh);
    if n < d {
        let ww = rounded_ratio_spec(ow as int, n, d);
        let hh = rounded_ratio_spec(oh as int, n, d);
        lemma_round_bracket(ow as int, n, d);
        lemma_round_bracket(oh as int, n, d);
        lemma_rounded_below(ow as int, n, d);
        lemma_rounded_below(oh as int, n, d);
        let w: int = if ww < 1 { 1 } else { ww };
        let h: int = if hh < 1 { 1 } else { hh };
        if ww >= 1 && hh >= 1 {
            lemma_cross_within(ow as int, oh as int, n, d, ww, hh);
        } else if ww < 1 {
            assert(ww == 0);
            assert(ow as int * n + d / 2 < d) by {
                assert(ww * d == 0) by (nonlinear_arith)
                    requires
                        ww == 0,
                ;
            }
            lemma_cross_raised(ow as int, oh as int, n, d, h);
        } else {
            assert(hh == 0);
            assert(oh as int * n + d / 2 < d) by {
                assert(hh * d == 0) by (nonlinear_arith)
                    requires
                        hh == 0,
                ;
            }
            lemma_cross_raised(oh as int, ow as int, n, d, w);
        }
        let (n1, d1) = match mw {
            Some(l) => if l < ow {
                (l as int, ow as int)
            } else {
                (1int, 1int)
            },
            None => (1int, 1int),
        };
        let height_limited = match mh {
            Some(l) => l < oh && l * d1 < n1 * oh,
            None => false,
        };
        if height_limited {
            assert(n == mh->0 && d == oh);
            lemma_round_exact(oh as int, n);
        } else {
            assert(n == n1 && d == d1);
            assert(mw matches Some(l) && l < ow && n == l && d == ow);
            lemma_round_exact(ow as int, n);
        }
        let r = resized_spec(ow, oh, mw, mh);
        assert(r.0 as int == w && r.1 as int == h);
        assert(-(ow + oh) <= w * oh - h * ow <= ow + oh);
    } else {
        assert(ow * oh == oh * ow) by (nonlinear_arith);
    }
}

proof fn lemma_scale_le_width(ow: u32, oh: u32, l: u32, mh: Option<u32>)
    requires
        l < ow,
    ensures
        ({
            let (n, d) = resize_scale(ow, oh, Some(l), mh);
            n * ow <= l * d
        }),
{
    let (n, d) = resize_scale(ow, oh, Some(l), mh);
    if n == l && d == ow {
        assert(n * ow == l * d) by (nonlinear_arith)
            requires
                n == l,
                d == ow,
        ;
    } else {
        // the height limit won: h * ow < l * oh with n == h and d == oh
        assert(n * ow < l * d) by (nonlinear_arith)
            requires
                n * (ow as int) < (l as int) * d,
        ;
    }
}

proof fn lemma_scale_le_height(ow: u32, oh: u32, mw: Option<u32>, l: u32)
    requires
        l < oh,
    ensures
        ({
            let (n, d) = resize_scale(ow, oh, mw, Some(l));
            n * oh <= l * d
        }),
{
    let (n, d) = resize_scale(ow, oh, mw, Some(l));
    let (n1, d1) = match mw {
        Some(w) => if w < ow {
            (w as int, ow as int)
        } else {
            (1int, 1int)
        },
        None => (1int, 1int),
    };
    if l * d1 < n1 * oh {
        assert(n == l && d == oh);
        assert(n * oh == l * d) by (nonlinear_arith)
            requires
                n == l,
                d == oh,
        ;
    } else {
        assert(n == n1 && d == d1);
        assert(n * oh <= l * d) by (nonlinear_arith)
            requires
                l * d1 >= n1 * oh,
                n == n1,
                d == d1,
        ;
    }
}

/// If `n / d <= l / v` then rounding `v * n / d` is at most `max(l, 1)`.
proof fn lemma_round_le_limit(v: int, l: int, n: int, d: int)
    requires
        v >= 1,
        0 <= l,
        0 <= n < d,
        n * v <= l * d,
    ensures
        ({
            let w = rounded_ratio_spec(v, n, d);
            (if w < 1 { 1 } else { w }) <= (if l < 1 { 1 } else { l })
        }),
{
    assert((v * n + d / 2) / d <= l) by (nonlinear_arith)
        requires
            n * v <= l * d,
            d > 0,
            0 <= n,
            v >= 1,
    {
        assert(v * n + d / 2 < (l + 1) * d);
    }
}

pub open spec fn media_type_spec(format: ImageFormat) -> Seq<char> {
    match format {
        ImageFormat::Png => "image/png"@,
        ImageFormat::Jpeg => "image/jpeg"@,
    }
}

fn media_type_for_format(format: ImageFormat) -> (r: &'static str)
    ensures
        r@ == media_type_spec(format),
{
    match format {
        ImageFormat::Png => "image/png",
        ImageFormat::Jpeg => "image/jpeg",
    }
}

/// Capture can only be taken of targets that support it.
pub fn ensure_capture_supported(target: &crate::platform::TargetDescriptor) -> (r: Result<(), TendrilError>)
    ensures
        r is Ok <==> target.capture_supported,
        r matches Err(e) ==> e.code_spec() == "capture_not_supported_for_target"@ && e.category_spec()
            == crate::envelope::ErrorCategory::UnsupportedCapability && e.message_spec() == "target `"@ + target.id@
            + "` does not support capture"@,
{
    if target.capture_supported {
        Ok(())
    } else {
        let mut message = owned("target `");
        text::push_str(&mut message, target.id.as_str());
        text::push_str(&mut message, "` does not support capture");
        let kind = match target.kind {
            crate::platform::CaptureTargetKind::Window => "window",
            crate::platform::CaptureTargetKind::Display => "display",
        };
        Err(TendrilError::unsupported_capability("capture_not_supported_for_target", message)
            .with_detail_entry("target_id", crate::error::DetailValue::Text(target.id.clone()))
            .with_detail_entry("target_kind", crate::error::DetailValue::Text(owned(kind))))
    }
}

/// Width and height of an encoded image as the `image` crate decodes it.
pub uninterp spec fn image_size(bytes: Seq<u8>) -> (u32, u32);

/// Whether the `image` crate decodes the bytes (`load_from_memory` succeeds).
pub uninterp spec fn image_decodes(bytes: Seq<u8>) -> bool;

/// Whether decoding, resizing to the given size and writing PNG succeeds.
pub uninterp spec fn png_encodes(bytes: Seq<u8>, width: u32, height: u32) -> bool;

/// Whether decoding, resizing to the given size and writing JPEG at the
/// given quality succeeds.
pub uninterp spec fn jpeg_encodes(bytes: Seq<u8>, width: u32, height: u32, quality: u8) -> bool;

/// The character of a six-bit value in the standard base64 alphabet.
pub open spec fn base64_char(v: int) -> char {
    if v < 26 {
        ('A' as int + v) as char
    } else if v < 52 {
        ('a' as int + (v - 26)) as char
    } else if v < 62 {
        ('0' as int + (v - 52)) as char
    } else if v == 62 {
        '+'
    } else {
        '/'
    }
}

/// Standard base64 text of bytes: each group of three bytes becomes four
/// characters of the alphabet, and a last group of one or two bytes becomes
/// two or three characters padded with `=` to four.
pub open spec fn base64_standard(bytes: Seq<u8>) -> Seq<char>
    decreases bytes.len(),
{
    if bytes.len() == 0 {
        seq![]
    } else if bytes.len() == 1 {
        let n = bytes[0] as int;
        seq![base64_char(n / 4), base64_char((n % 4) * 16), '=', '=']
    } else if bytes.len() == 2 {
        let n = bytes[0] as int * 256 + bytes[1] as int;
        seq![base64_char(n / 1024), base64_char((n / 16) % 64), base64_char((n % 16) * 4), '=']
    } else {
        let n = bytes[0] as int * 65536 + bytes[1] as int * 256 + bytes[2] as int;
        seq![base64_char(n / 262144), base64_char((n / 4096) % 64), base64_char((n / 64) % 64), base64_char(n % 64)]
            + base64_standard(bytes.skip(3))
    }
}

/// `image::load_from_memory` followed by `dimensions`: the size of the
/// decoded image, or the decoder's error message. Which message comes out
/// is not stated.
#[verifier::external_body]
fn decode_dimensions(bytes: &[u8]) -> (r: Result<(u32, u32), String>)
    ensures
        r is Ok <==> image_decodes(bytes@),
        r matches Ok(d) ==> d == image_size(bytes@),
{
    match image::load_from_memory(bytes) {
        Ok(img) => Ok(img.dimensions()),
        Err(error) => Err(error.to_string()),
    }
}

/// `image::load_from_memory`, `DynamicImage::resize_exact` with Lanczos3,
/// then `write_to` as PNG. The PNG starts with the signature and an `IHDR`
/// chunk giving the requested size. Its pixel bytes are not stated: the
/// resampling goes through floating-point `sin`, whose precision std leaves
/// open.
#[verifier::external_body]
fn render_png(bytes: &[u8], width: u32, height: u32) -> (r: Result<Vec<u8>, String>)
    ensures
        r is Ok <==> png_encodes(bytes@, width, height),
        r matches Ok(v) ==> crate::camera::png_dimensions_spec(v@) == Some((width, height)),
{
    let img = image::load_from_memory(bytes).map_err(|e| e.to_string())?;
    let resized = img.resize_exact(width, height, image::imageops::FilterType::Lanczos3);
    let mut buffer = Vec::new();
    resized.write_to(&mut std::io::Cursor::new(&mut buffer), image::ImageFormat::Png).map_err(|e| e.to_string())?;
    Ok(buffer)
}

/// `image::load_from_memory`, `DynamicImage::resize_exact` with Lanczos3,
/// then `JpegEncoder::new_with_quality(.., quality).encode_image`. The JPEG
/// starts with the start-of-image marker; the rest is not stated (the
/// resampling goes through floating-point `sin`).
#[verifier::external_body]
fn render_jpeg(bytes: &[u8], width: u32, height: u32, quality: u8) -> (r: Result<Vec<u8>, String>)
    ensures
        r is Ok <==> jpeg_encodes(bytes@, width, height, quality),
        r matches Ok(v) ==> is_jpeg(v@),
{
    let img = image::load_from_memory(bytes).map_err(|e| e.to_string())?;
    let resized = img.resize_exact(width, height, image::imageops::FilterType::Lanczos3);
    let mut buffer = Vec::new();
    let mut encoder = image::codecs::jpeg::JpegEncoder::new_with_quality(&mut buffer, quality);
    encoder.encode_image(&resized).map_err(|e| e.to_string())?;
    Ok(buffer)
}

/// Bytes that start with the JPEG start-of-image marker.
pub open spec fn is_jpeg(v: Seq<u8>) -> bool {
    v.len() >= 2 && v[0] == 0xFFu8 && v[1] == 0xD8u8
}

/// `base64::engine::general_purpose::STANDARD.encode`: the standard
/// alphabet with padding.
#[verifier::external_body]
pub(crate) fn base64_encode(bytes: &[u8]) -> (r: String)
    ensures
        r@ == base64_standard(bytes@),
{
    base64::engine::general_purpose::STANDARD.encode(bytes)
}

/// JPEG quality for a compression value: at least one.
pub open spec fn jpeg_quality(compression: u8) -> u8 {
    if compression < 1 { 1u8 } else { compression }
}

/// Whether encoding in the requested format succeeds.
pub open spec fn encodes(bytes: Seq<u8>, width: u32, height: u32, format: ImageFormat, compression: u8) -> bool {
    match format {
        ImageFormat::Png => png_encodes(bytes, width, height),
        ImageFormat::Jpeg => jpeg_encodes(bytes, width, height, jpeg_quality(compression)),
    }
}

/// Bytes of an image in the requested format and size: a PNG whose header
/// gives the size, or a JPEG.
pub open spec fn rendered_as(v: Seq<u8>, width: u32, height: u32, format: ImageFormat) -> bool {
    match format {
        ImageFormat::Png => crate::camera::png_dimensions_spec(v) == Some((width, height)),
        ImageFormat::Jpeg => is_jpeg(v),
    }
}

/// The capture report for an image of the given decoded size.
pub open spec fn capture_output_spec(
    input: CaptureInput,
    target_bounds: Bounds,
    size: (u32, u32),
    captured_at: Seq<char>,
    adapter: AdapterInfo,
    out: CaptureOutput,
) -> bool {
    let (ow, oh) = size;
    let (w, h) = resized_spec(ow, oh, input.max_width, input.max_height);
    &&& out.adapter == adapter
    &&& out.target == input.target
    &&& out.original_bounds == (Bounds { x: target_bounds.x, y: target_bounds.y, width: ow, height: oh })
    &&& out.output_bounds == (Bounds { x: target_bounds.x, y: target_bounds.y, width: w, height: h })
    &&& out.source_to_output == (CoordinateTransform { x_numerator: w, x_denominator: ow, y_numerator: h, y_denominator: oh })
    &&& out.output_to_source == (CoordinateTransform { x_numerator: ow, x_denominator: w, y_numerator: oh, y_denominator: h })
    &&& out.resized == (w != ow || h != oh)
    &&& out.format == input.format
    &&& out.compression == input.compression
    &&& out.media_type@ == media_type_spec(input.format)
    &&& exists|v: Seq<u8>| #[trigger] base64_standard(v) == out.image_base64@ && rendered_as(v, w, h, input.format)
    &&& out.captured_at@ == captured_at
}

/// Decodes a captured image, fits it inside the requested limits, encodes it
/// in the requested format and reports both coordinate mappings.
pub fn build_capture_output(
    input: &CaptureInput,
    target: &crate::platform::TargetDescriptor,
    artifact: crate::platform::CaptureArtifact,
    adapter: &AdapterInfo,
) -> (r: Result<CaptureOutput, TendrilError>)
    ensures
        r matches Ok(out) ==> capture_output_spec(
            *input,
            target.bounds,
            image_size(artifact.image_bytes@),
            artifact.captured_at@,
            *adapter,
            out,
        ),
        ({
            let (ow, oh) = image_size(artifact.image_bytes@);
            let (w, h) = resized_spec(ow, oh, input.max_width, input.max_height);
            &&& r is Ok <==> (image_decodes(artifact.image_bytes@) && encodes(
                artifact.image_bytes@,
                w,
                h,
                input.format,
                input.compression,
            ))
            &&& !image_decodes(artifact.image_bytes@) ==> (r matches Err(e) && e.category_spec()
                == crate::envelope::ErrorCategory::ExecutionFailure && e.code_spec() == "capture_decode_failed"@)
            &&& image_decodes(artifact.image_bytes@) && !encodes(artifact.image_bytes@, w, h, input.format, input.compression)
                ==> (r matches Err(e) && e.category_spec() == crate::envelope::ErrorCategory::ExecutionFailure
                && e.code_spec() == "capture_encode_failed"@)
        }),
{
    let (original_width, original_height) = match decode_dimensions(artifact.image_bytes.as_slice()) {
        Ok(d) => d,
        Err(message) => {
            let mut m = owned("captured image could not be decoded: ");
            text::push_str(&mut m, message.as_str());
            return Err(TendrilError::execution_failure("capture_decode_failed", m));
        },
    };
    let (output_width, output_height) = resized_dimensions(original_width, original_height, input.max_width, input.max_height);
    let encoded = match input.format {
        ImageFormat::Png => render_png(artifact.image_bytes.as_slice(), output_width, output_height),
        ImageFormat::Jpeg => {
            let quality: u8 = if input.compression < 1 { 1 } else { input.compression };
            render_jpeg(artifact.image_bytes.as_slice(), output_width, output_height, quality)
        },
    };
    let image_bytes = match encoded {
        Ok(v) => v,
        Err(message) => {
            let mut m = match input.format {
                ImageFormat::Png => owned("failed to encode png capture: "),
                ImageFormat::Jpeg => owned("failed to encode jpeg capture: "),
            };
            text::push_str(&mut m, message.as_str());
            return Err(TendrilError::execution_failure("capture_encode_failed", m));
        },
    };
    let image_base64 = base64_encode(image_bytes.as_slice());
    proof {
        assert(rendered_as(image_bytes@, output_width, output_height, input.format));
        assert(base64_standard(image_bytes@) == image_base64@);
    }
    Ok(CaptureOutput {
        adapter: *adapter,
        target: input.target.duplicate(),
        original_bounds: Bounds { x: target.bounds.x, y: target.bounds.y, width: original_width, height: original_height },
        output_bounds: Bounds { x: target.bounds.x, y: target.bounds.y, width: output_width, height: output_height },
        source_to_output: CoordinateTransform {
            x_numerator: output_width,
            x_denominator: original_width,
            y_numerator: output_height,
            y_denominator: original_height,
        },
        output_to_source: CoordinateTransform {
            x_numerator: original_width,
            x_denominator: output_width,
            y_numerator: original_height,
            y_denominator: output_height,
        },
        resized: output_width != original_width || output_height != original_height,
        format: input.format,
        compression: input.compression,
        media_type: owned(media_type_for_format(input.format)),
        image_base64,
        captured_at: artifact.captured_at,
    })
}

} // verus!

verus! {

/// Whether a discovered target is of the selector's kind.
pub open spec fn kind_matches(sel: crate::model::TargetSelector, kind: crate::platform::CaptureTargetKind) -> bool {
    match sel {
        crate::model::TargetSelector::Window { .. } => kind == crate::platform::CaptureTargetKind::Window,
        crate::model::TargetSelector::Display { .. } => kind == crate::platform::CaptureTargetKind::Display,
    }
}

pub fn matches_target_kind(target: &crate::model::TargetSelector, kind: crate::platform::CaptureTargetKind) -> (r: bool)
    ensures
        r == kind_matches(*target, kind),
{
    match target {
        crate::model::TargetSelector::Window { .. } => kind == crate::platform::CaptureTargetKind::Window,
        crate::model::TargetSelector::Display { .. } => kind == crate::platform::CaptureTargetKind::Display,
    }
}

/// Whether the discovered target at `i` is the selected one.
pub open spec fn selects(sel: crate::model::TargetSelector, targets: Seq<crate::platform::TargetDescriptor>, i: int) -> bool {
    0 <= i < targets.len() && targets[i].id@ == sel.id_spec() && kind_matches(sel, targets[i].kind)
}

/// The word a target-not-found error names a kind by.
pub open spec fn kind_word(kind: crate::model::TargetKind) -> Seq<char> {
    match kind {
        crate::model::TargetKind::Window => "window"@,
        crate::model::TargetKind::Display => "display"@,
        crate::model::TargetKind::AudioSource => "audio_source"@,
    }
}

/// The first discovered target with the selector's identifier and kind, or
/// the target-not-found error naming them.
pub fn resolve_target(
    selector: &crate::model::TargetSelector,
    targets: &Vec<crate::platform::TargetDescriptor>,
) -> (r: Result<usize, TendrilError>)
    ensures
        match r {
            Ok(i) => selects(*selector, targets@, i as int) && forall|j: int| 0 <= j < i ==> !selects(*selector, targets@, j),
            Err(e) => (forall|j: int| !selects(*selector, targets@, j)) && e.code_spec() == "target_not_found"@
                && e.message_spec() == kind_word(selector.kind_spec()) + " `"@ + selector.id_spec() + "` was not found"@,
        },
{
    let id = text::chars_of(selector.id());
    let mut i: usize = 0;
    while i < targets.len()
        invariant
            id@ == selector.id_spec(),
            i <= targets@.len(),
            forall|j: int| 0 <= j < i ==> !selects(*selector, targets@, j),
        decreases targets.len() - i,
    {
        let tid = text::chars_of(targets[i].id.as_str());
        if text::same(tid.as_slice(), id.as_slice()) && matches_target_kind(selector, targets[i].kind) {
            return Ok(i);
        }
        i += 1;
    }
    let word = match selector.kind() {
        crate::model::TargetKind::Window => "window",
        crate::model::TargetKind::Display => "display",
        crate::model::TargetKind::AudioSource => "audio_source",
    };
    Err(TendrilError::target_not_found(word, selector.id()))
}

} // verus!
