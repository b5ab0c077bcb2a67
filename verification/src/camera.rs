//! Camera (video capture device) discovery and single-frame capture: the
//! parsers for the platform inventories, the ffmpeg argument vectors, the
//! choice of device for a selector, and the errors of a failed capture.
//! Running ffmpeg and reading the frame file is done by the caller.
use vstd::prelude::*;

use crate::envelope::ErrorCategory;
use crate::error::{DetailValue, TendrilError};
use crate::platform::PlatformKind;
use crate::text::{self, contains, decimal, lines, owned, strings_view};

verus! {

/// A video capture device (webcam, Continuity Camera, virtual camera).
#[derive(Debug, Clone, PartialEq, Eq)]
pub struct CameraDescriptor {
    /// The selector `capture --camera` takes.
    pub id: String,
    pub name: String,
    pub model_id: Option<String>,
    pub unique_id: Option<String>,
}

/// The ffmpeg program.
pub const FFMPEG_BIN: &'static str = "ffmpeg";
/// The frame rate AVFoundation capture asks for first.
pub const AVFOUNDATION_DEFAULT_FRAMERATE: &'static str = "30";

// ---------------------------------------------------------------------------
// Inventories
// ---------------------------------------------------------------------------

/// The text between the first two double quotes of a line.
pub open spec fn first_quoted(line: Seq<char>) -> Option<Seq<char>> {
    match text::index_of(line, '"') {
        None => None,
        Some(a) => match text::index_of(line.skip(a + 1), '"') {
            None => None,
            Some(b) => Some(line.subrange(a + 1, a + 1 + b)),
        },
    }
}

fn first_quoted_value(line: &[char]) -> (r: Option<Vec<char>>)
    ensures
        match r {
            Some(v) => first_quoted(line@) == Some(v@),
            None => first_quoted(line@) is None,
        },
{
    let a = text::index_of_char(line, '"')?;
    let n = line.len();
    assert(a < n);
    let rest = text::slice_vec(line, a + 1, n);
    assert(rest@ =~= line@.skip(a + 1));
    let b = text::index_of_char(rest.as_slice(), '"')?;
    let v = text::slice_vec(rest.as_slice(), 0, b);
    assert(v@ =~= line@.subrange(a + 1, a + 1 + b));
    Some(v)
}

/// One DirectShow camera: its friendly name and, once seen, its alternative
/// (PnP) name.
pub open spec fn dshow_camera(c: CameraDescriptor, name: Seq<char>, alternative: Option<Seq<char>>) -> bool {
    &&& c.name@ == name
    &&& c.model_id matches Some(m) && m@ == "DirectShow"@
    &&& match alternative {
        Some(alt) => c.id@ == alt && (c.unique_id matches Some(u) && u@ == alt),
        None => c.id@ == name && c.unique_id is None,
    }
}

/// The cameras of ffmpeg's DirectShow listing, read line by line after the
/// cameras `cams` already seen: each `(video)` line with a quoted name adds
/// a camera; an `Alternative name` line right after it (no `(audio)` line in
/// between) gives that camera its alternative (PnP) name.
pub open spec fn dshow_fold(
    ls: Seq<Seq<char>>,
    cams: Seq<(Seq<char>, Option<Seq<char>>)>,
    pending: bool,
) -> Seq<(Seq<char>, Option<Seq<char>>)>
    decreases ls.len(),
{
    if ls.len() == 0 {
        cams
    } else {
        let l = ls[0];
        let rest = ls.drop_first();
        if contains(l, "(video)"@) {
            match first_quoted(l) {
                Some(name) => dshow_fold(rest, cams.push((name, None)), true),
                None => dshow_fold(rest, cams, false),
            }
        } else if contains(l, "(audio)"@) {
            dshow_fold(rest, cams, false)
        } else if pending && contains(l, "Alternative name"@) {
            match first_quoted(l) {
                Some(alt) => if cams.len() > 0 {
                    dshow_fold(rest, cams.update(cams.len() - 1, (cams.last().0, Some(alt))), false)
                } else {
                    dshow_fold(rest, cams, false)
                },
                None => dshow_fold(rest, cams, false),
            }
        } else {
            dshow_fold(rest, cams, pending)
        }
    }
}

pub open spec fn dshow_matches(out: Seq<CameraDescriptor>, cams: Seq<(Seq<char>, Option<Seq<char>>)>) -> bool {
    &&& out.len() == cams.len()
    &&& forall|k: int| 0 <= k < cams.len() ==> dshow_camera(#[trigger] out[k], cams[k].0, cams[k].1)
}

/// Reads the video devices from ffmpeg's DirectShow `-list_devices` output.
#[verifier::spinoff_prover]
#[verifier::rlimit(60)]
pub fn parse_dshow_devices(stderr: &str) -> (r: Vec<CameraDescriptor>)
    ensures
        dshow_matches(r@, dshow_fold(lines(stderr@), seq![], false)),
{
    let ls = text::text_lines(stderr);
    let ghost lv = strings_view(ls@);
    let ghost all = dshow_fold(lv, seq![], false);
    let mut cameras: Vec<CameraDescriptor> = Vec::new();
    let ghost mut cams: Seq<(Seq<char>, Option<Seq<char>>)> = seq![];
    let mut pending = false;
    let mut i: usize = 0;
    assert(lv.skip(0) =~= lv);
    while i < ls.len()
        invariant
            lv == strings_view(ls@),
            lv == lines(stderr@),
            all == dshow_fold(lv, seq![], false),
            i <= ls@.len(),
            dshow_fold(lv.skip(i as int), cams, pending) == all,
            dshow_matches(cameras@, cams),
            pending ==> cams.len() > 0,
        decreases ls.len() - i,
    {
        let line = text::chars_of(ls[i].as_str());
        assert(lv.skip(i as int).drop_first() =~= lv.skip(i + 1));
        assert(lv.skip(i as int)[0] == line@);
        if text::contains_lit(line.as_slice(), "(video)") {
            pending = false;
            match first_quoted_value(line.as_slice()) {
                Some(name) => {
                    let n = text::string_of(name.as_slice());
                    cameras.push(
                        CameraDescriptor { id: n.clone(), name: n, model_id: Some(owned("DirectShow")), unique_id: None },
                    );
                    pending = true;
                    proof {
                        cams = cams.push((name@, None));
                    }
                },
                None => {},
            }
        } else if text::contains_lit(line.as_slice(), "(audio)") {
            pending = false;
        } else if pending && text::contains_lit(line.as_slice(), "Alternative name") {
            match first_quoted_value(line.as_slice()) {
                Some(alt) => {
                    let k = cameras.len() - 1;
                    let a = text::string_of(alt.as_slice());
                    let mut cam = cameras.remove(k);
                    cam.id = a.clone();
                    cam.unique_id = Some(a);
                    cameras.push(cam);
                    proof {
                        cams = cams.update(cams.len() - 1, (cams.last().0, Some(alt@)));
                    }
                },
                None => {},
            }
            pending = false;
        }
        i += 1;
    }
    assert(lv.skip(i as int).len() == 0);
    cameras
}

/// The arguments every single-frame grab ends with: one video frame, no
/// audio, the output overwritten.
fn common_capture_args(args: &mut Vec<String>, output: &str)
    ensures
        strings_view(final(args)@) == strings_view(old(args)@) + seq!["-frames:v"@, "1"@, "-an"@, "-y"@, output@],
{
    let ghost start = strings_view(args@);
    args.push(owned("-frames:v"));
    args.push(owned("1"));
    args.push(owned("-an"));
    args.push(owned("-y"));
    args.push(owned(output));
    assert(strings_view(args@) =~= start + seq!["-frames:v"@, "1"@, "-an"@, "-y"@, output@]);
}

pub open spec fn capture_args_spec(backend_args: Seq<Seq<char>>, output: Seq<char>) -> Seq<Seq<char>> {
    seq!["-hide_banner"@, "-nostdin"@, "-loglevel"@, "error"@] + backend_args + seq![
        "-frames:v"@,
        "1"@,
        "-an"@,
        "-y"@,
        output,
    ]
}

fn capture_args(backend_args: Vec<String>, output: &str) -> (r: Vec<String>)
    ensures
        strings_view(r@) == capture_args_spec(strings_view(backend_args@), output@),
{
    let mut r: Vec<String> = Vec::new();
    r.push(owned("-hide_banner"));
    r.push(owned("-nostdin"));
    r.push(owned("-loglevel"));
    r.push(owned("error"));
    let ghost head = strings_view(r@);
    assert(head =~= seq!["-hide_banner"@, "-nostdin"@, "-loglevel"@, "error"@]);
    let mut rest = backend_args;
    let ghost b = strings_view(rest@);
    r.append(&mut rest);
    assert(strings_view(r@) =~= head + b);
    common_capture_args(&mut r, output);
    assert(strings_view(r@) =~= capture_args_spec(b, output@));
    r
}

/// ffmpeg's arguments for one AVFoundation frame at the given frame rate.
pub fn avfoundation_capture_args(device: &str, output: &str, framerate: &str) -> (r: Vec<String>)
    ensures
        strings_view(r@) == capture_args_spec(
            seq!["-f"@, "avfoundation"@, "-framerate"@, framerate@, "-i"@, device@],
            output@,
        ),
{
    let mut b: Vec<String> = Vec::new();
    b.push(owned("-f"));
    b.push(owned("avfoundation"));
    b.push(owned("-framerate"));
    b.push(owned(framerate));
    b.push(owned("-i"));
    b.push(owned(device));
    assert(strings_view(b@) =~= seq!["-f"@, "avfoundation"@, "-framerate"@, framerate@, "-i"@, device@]);
    capture_args(b, output)
}

/// ffmpeg's arguments for one V4L2 frame from a device node.
pub fn v4l2_capture_args(device: &str, output: &str) -> (r: Vec<String>)
    ensures
        strings_view(r@) == capture_args_spec(seq!["-f"@, "v4l2"@, "-i"@, device@], output@),
{
    let mut b: Vec<String> = Vec::new();
    b.push(owned("-f"));
    b.push(owned("v4l2"));
    b.push(owned("-i"));
    b.push(owned(device));
    assert(strings_view(b@) =~= seq!["-f"@, "v4l2"@, "-i"@, device@]);
    capture_args(b, output)
}

/// ffmpeg's arguments for one DirectShow frame (`video=` a name or PnP id).
pub fn dshow_capture_args(device: &str, output: &str) -> (r: Vec<String>)
    ensures
        strings_view(r@) == capture_args_spec(seq!["-f"@, "dshow"@, "-i"@, "video="@ + device@], output@),
{
    let mut b: Vec<String> = Vec::new();
    b.push(owned("-f"));
    b.push(owned("dshow"));
    b.push(owned("-i"));
    let mut v = owned("video=");
    text::push_str(&mut v, device);
    b.push(v);
    assert(strings_view(b@) =~= seq!["-f"@, "dshow"@, "-i"@, "video="@ + device@]);
    capture_args(b, output)
}

// ---------------------------------------------------------------------------
// Frame rates
// ---------------------------------------------------------------------------

/// A finite positive decimal number as `f64` parsing reads it: an optional
/// `+`, digits with at most one `.` (at least one digit, one of them not
/// zero), and an optional exponent `e`/`E` with an optional sign and digits.
pub open spec fn positive_decimal(s: Seq<char>) -> bool {
    let mantissa = decimal_mantissa(s);
    &&& decimal_exponent_ok(s)
    &&& mantissa.len() > 0
    &&& forall|k: int| 0 <= k < mantissa.len() ==> (text::is_ascii_digit(#[trigger] mantissa[k]) || mantissa[k] == '.')
    &&& forall|a: int, b: int| 0 <= a < b < mantissa.len() && #[trigger] mantissa[a] == '.' ==> #[trigger] mantissa[b] != '.'
    &&& exists|k: int| 0 <= k < mantissa.len() && text::is_ascii_digit(#[trigger] mantissa[k]) && mantissa[k] != '0'
}

/// The number without a leading `+`.
pub open spec fn decimal_body(s: Seq<char>) -> Seq<char> {
    if s.len() > 0 && s[0] == '+' { s.drop_first() } else { s }
}

/// Where the exponent marker is.
pub open spec fn exponent_at(s: Seq<char>) -> Option<int> {
    match text::index_of(decimal_body(s), 'e') {
        Some(i) => Some(i),
        None => text::index_of(decimal_body(s), 'E'),
    }
}

pub open spec fn decimal_mantissa(s: Seq<char>) -> Seq<char> {
    match exponent_at(s) {
        Some(i) => decimal_body(s).take(i),
        None => decimal_body(s),
    }
}

pub open spec fn decimal_exponent_ok(s: Seq<char>) -> bool {
    match exponent_at(s) {
        None => true,
        Some(i) => {
            let x = decimal_body(s).skip(i + 1);
            let digits = if x.len() > 0 && (x[0] == '+' || x[0] == '-') { x.drop_first() } else { x };
            digits.len() > 0 && text::all_digits(digits)
        },
    }
}

} // verus!

verus! {

/// One camera frame, processed and encoded.
#[derive(Debug, Clone, PartialEq, Eq)]
pub struct CameraCaptureOutput {
    pub adapter: crate::platform::AdapterInfo,
    pub device: String,
    pub format: crate::config::ImageFormat,
    pub media_type: String,
    pub width: u32,
    pub height: u32,
    pub image_base64: String,
    pub captured_at: String,
}

/// The camera capture report for a processed frame: its size, media type
/// and bytes as base64.
pub fn camera_capture_output(
    device: &str,
    adapter: crate::platform::AdapterInfo,
    format: crate::config::ImageFormat,
    media_type: String,
    width: u32,
    height: u32,
    bytes: &[u8],
    captured_at: String,
) -> (r: CameraCaptureOutput)
    ensures
        r.adapter == adapter,
        r.device@ == device@,
        r.format == format,
        r.media_type == media_type,
        r.width == width,
        r.height == height,
        r.image_base64@ == crate::capture::base64_standard(bytes@),
        r.captured_at == captured_at,
{
    CameraCaptureOutput {
        adapter,
        device: owned(device),
        format,
        media_type,
        width,
        height,
        image_base64: crate::capture::base64_encode(bytes),
        captured_at,
    }
}

/// The human camera capture report.
pub open spec fn camera_capture_text(o: CameraCaptureOutput) -> Seq<char> {
    "camera capture: "@ + o.device@ + "\nplatform: "@ + crate::platform::platform_name_spec(o.adapter.platform)
        + " / "@ + crate::platform::session_name_spec(o.adapter.session) + "\nsize: "@ + decimal(o.width as nat) + "x"@
        + decimal(o.height as nat) + "\nformat: "@ + crate::rendering::image_format_name(o.format) + "\nmedia_type: "@
        + o.media_type@ + "\nimage_base64_bytes: "@ + decimal(o.image_base64@.len()) + "\ncaptured_at: "@
        + o.captured_at@ + "\n"@
}

pub fn render_camera_capture_human(output: &CameraCaptureOutput) -> (r: String)
    ensures
        r@ == camera_capture_text(*output),
{
    let w = text::format_u64(output.width as u64);
    let h = text::format_u64(output.height as u64);
    let n = text::format_u64(output.image_base64.unicode_len() as u64);
    let mut r = owned("camera capture: ");
    text::push_str(&mut r, output.device.as_str());
    text::push_str(&mut r, "\nplatform: ");
    text::push_str(&mut r, crate::platform::platform_name(output.adapter.platform));
    text::push_str(&mut r, " / ");
    text::push_str(&mut r, crate::platform::session_name(output.adapter.session));
    text::push_str(&mut r, "\nsize: ");
    text::push_str(&mut r, w.as_str());
    text::push_str(&mut r, "x");
    text::push_str(&mut r, h.as_str());
    text::push_str(&mut r, "\nformat: ");
    text::push_str(
        &mut r,
        match output.format {
            crate::config::ImageFormat::Png => "Png",
            crate::config::ImageFormat::Jpeg => "Jpeg",
        },
    );
    text::push_str(&mut r, "\nmedia_type: ");
    text::push_str(&mut r, output.media_type.as_str());
    text::push_str(&mut r, "\nimage_base64_bytes: ");
    text::push_str(&mut r, n.as_str());
    text::push_str(&mut r, "\ncaptured_at: ");
    text::push_str(&mut r, output.captured_at.as_str());
    text::push_str(&mut r, "\n");
    assert(r@ =~= camera_capture_text(*output));
    r
}

} // verus!

verus! {

/// How many leading characters of `s` come before whitespace or `]`.
pub open spec fn token_len(s: Seq<char>) -> nat
    decreases s.len(),
{
    if s.len() == 0 || text::is_ws(s[0]) || s[0] == ']' {
        0
    } else {
        1 + token_len(s.drop_first())
    }
}

/// The frame rate a mode line advertises: the text after `@[` up to
/// whitespace or `]`, where it is a finite positive number.
pub open spec fn framerate_in(line: Seq<char>) -> Option<Seq<char>> {
    match text::first_index(line, "@["@) {
        None => None,
        Some(i) => {
            let rest = line.skip(i + 2);
            let token = rest.take(token_len(rest) as int);
            if positive_decimal(token) {
                Some(token)
            } else {
                None
            }
        },
    }
}

/// The first frame rate the lines advertise.
pub open spec fn first_framerate(ls: Seq<Seq<char>>) -> Option<Seq<char>>
    decreases ls.len(),
{
    if ls.len() == 0 {
        None
    } else {
        match framerate_in(ls[0]) {
            Some(t) => Some(t),
            None => first_framerate(ls.drop_first()),
        }
    }
}

fn token_end(s: &[char]) -> (r: usize)
    ensures
        r == token_len(s@),
        r <= s@.len(),
{
    let mut i: usize = 0;
    assert(s@.skip(0) =~= s@);
    while i < s.len() && !text::is_whitespace(s[i]) && s[i] != ']'
        invariant
            i <= s@.len(),
            token_len(s@) == i + token_len(s@.skip(i as int)),
        decreases s.len() - i,
    {
        assert(s@.skip(i as int).drop_first() =~= s@.skip(i + 1));
        i += 1;
    }
    i
}

fn all_digit_chars(s: &[char], a: usize, b: usize) -> (r: bool)
    requires
        a <= b <= s@.len(),
    ensures
        r == text::all_digits(s@.subrange(a as int, b as int)),
{
    let mut i: usize = a;
    while i < b
        invariant
            a <= i <= b <= s@.len(),
            forall|k: int| a <= k < i ==> text::is_ascii_digit(#[trigger] s@[k]),
        decreases b - i,
    {
        if !text::is_digit(s[i]) {
            assert(!text::is_ascii_digit(s@.subrange(a as int, b as int)[i - a]));
            return false;
        }
        i += 1;
    }
    assert forall|k: int| 0 <= k < b - a implies text::is_ascii_digit(#[trigger] s@.subrange(a as int, b as int)[k]) by {
        assert(s@.subrange(a as int, b as int)[k] == s@[a + k]);
    }
    true
}

/// Whether the text is a finite positive decimal number, as `positive_decimal`
/// reads it.
pub fn is_positive_decimal(s: &[char]) -> (r: bool)
    ensures
        r == positive_decimal(s@),
{
    let body = if s.len() > 0 && s[0] == '+' {
        let b = text::slice_vec(s, 1, s.len());
        assert(b@ =~= s@.drop_first());
        b
    } else {
        let b = text::slice_vec(s, 0, s.len());
        assert(b@ =~= s@);
        b
    };
    assert(body@ == decimal_body(s@));
    let e = match text::index_of_char(body.as_slice(), 'e') {
        Some(i) => Some(i),
        None => text::index_of_char(body.as_slice(), 'E'),
    };
    assert(exponent_at(s@) == match e {
        Some(i) => Some(i as int),
        None => None::<int>,
    });
    let bl = body.len();
    let mend: usize = match e {
        Some(i) => i,
        None => bl,
    };
    let mantissa = text::slice_vec(body.as_slice(), 0, mend);
    assert(mantissa@ =~= decimal_mantissa(s@));
    let exp_ok = match e {
        None => true,
        Some(i) => {
            let x = text::slice_vec(body.as_slice(), i + 1, bl);
            assert(x@ =~= body@.skip(i + 1));
            if x.len() > 0 && (x[0] == '+' || x[0] == '-') {
                let xl = x.len();
                assert(x@.subrange(1, xl as int) =~= x@.drop_first());
                xl > 1 && all_digit_chars(x.as_slice(), 1, xl)
            } else {
                let xl = x.len();
                assert(x@.subrange(0, xl as int) =~= x@);
                xl > 0 && all_digit_chars(x.as_slice(), 0, xl)
            }
        },
    };
    assert(exp_ok == decimal_exponent_ok(s@));
    if !exp_ok || mantissa.len() == 0 {
        return false;
    }
    let mut i: usize = 0;
    let mut dots: usize = 0;
    let mut nonzero = false;
    while i < mantissa.len()
        invariant
            i <= mantissa@.len(),
            mantissa@ == decimal_mantissa(s@),
            dots <= 1,
            forall|k: int| 0 <= k < i ==> (text::is_ascii_digit(#[trigger] mantissa@[k]) || mantissa@[k] == '.'),
            dots == 0 ==> forall|k: int| 0 <= k < i ==> #[trigger] mantissa@[k] != '.',
            dots == 1 ==> exists|k: int| 0 <= k < i && #[trigger] mantissa@[k] == '.',
            forall|a: int, b: int| 0 <= a < b < i && #[trigger] mantissa@[a] == '.' ==> #[trigger] mantissa@[b] != '.',
            nonzero == exists|k: int| 0 <= k < i && text::is_ascii_digit(#[trigger] mantissa@[k]) && mantissa@[k] != '0',
        decreases mantissa.len() - i,
    {
        let c = mantissa[i];
        if c == '.' {
            if dots == 1 {
                proof {
                    let k = choose|k: int| 0 <= k < i && #[trigger] mantissa@[k] == '.';
                    assert(mantissa@[k] == '.' && mantissa@[i as int] == '.');
                }
                return false;
            }
            dots = 1;
        } else if !text::is_digit(c) {
            return false;
        } else if c != '0' {
            nonzero = true;
        }
        i += 1;
    }
    nonzero
}

fn framerate_of_line(line: &str) -> (r: Option<String>)
    ensures
        match framerate_in(line@) {
            Some(t) => r matches Some(s) && s@ == t,
            None => r is None,
        },
{
    proof {
        reveal_strlit("@[");
    }
    let chars = text::chars_of(line);
    let k = match text::find_first_lit(chars.as_slice(), "@[") {
        Some(k) => k,
        None => return None,
    };
    let ll = chars.len();
    assert(k + 2 <= ll);
    let rest = text::slice_vec(chars.as_slice(), k + 2, ll);
    assert(rest@ =~= line@.skip(k + 2));
    let n = token_end(rest.as_slice());
    let token = text::slice_vec(rest.as_slice(), 0, n);
    assert(token@ =~= rest@.take(n as int));
    if is_positive_decimal(token.as_slice()) {
        Some(text::string_of(token.as_slice()))
    } else {
        None
    }
}

/// The first frame rate ffmpeg's AVFoundation mode list advertises.
pub fn parse_avfoundation_supported_framerate(stderr: &str) -> (r: Option<String>)
    ensures
        match first_framerate(lines(stderr@)) {
            Some(t) => r matches Some(s) && s@ == t,
            None => r is None,
        },
{
    let ls = text::text_lines(stderr);
    let ghost v = lines(stderr@);
    let mut i: usize = 0;
    assert(v.skip(0) =~= v);
    while i < ls.len()
        invariant
            v == lines(stderr@),
            strings_view(ls@) == v,
            i <= ls@.len(),
            first_framerate(v) == first_framerate(v.skip(i as int)),
        decreases ls.len() - i,
    {
        proof {
            assert(v.skip(i as int)[0] == ls@[i as int]@);
            assert(v.skip(i as int).drop_first() =~= v.skip(i + 1));
        }
        match framerate_of_line(ls[i].as_str()) {
            Some(t) => {
                assert(framerate_in(v.skip(i as int)[0]) == Some(t@));
                assert(first_framerate(v.skip(i as int)) == Some(t@));
                return Some(t);
            },
            None => {},
        }
        i += 1;
    }
    assert(v.skip(i as int).len() == 0);
    None
}

/// A big-endian 32-bit number.
pub open spec fn be_u32(b0: u8, b1: u8, b2: u8, b3: u8) -> int {
    b0 * 16777216 + b1 * 65536 + b2 * 256 + b3
}

/// The width and height in a PNG's IHDR header; `None` unless the bytes
/// start with the PNG signature and an IHDR chunk.
pub open spec fn png_dimensions_spec(b: Seq<u8>) -> Option<(u32, u32)> {
    if b.len() >= 24 && b.take(8) == seq![0x89u8, 0x50, 0x4e, 0x47, 0x0d, 0x0a, 0x1a, 0x0a] && b.subrange(12, 16) == seq![
        0x49u8,
        0x48,
        0x44,
        0x52,
    ] {
        Some((be_u32(b[16], b[17], b[18], b[19]) as u32, be_u32(b[20], b[21], b[22], b[23]) as u32))
    } else {
        None
    }
}

fn be_u32_exec(b0: u8, b1: u8, b2: u8, b3: u8) -> (r: u32)
    ensures
        r == be_u32(b0, b1, b2, b3),
{
    let v: u64 = (b0 as u64) * 16777216 + (b1 as u64) * 65536 + (b2 as u64) * 256 + (b3 as u64);
    v as u32
}

pub fn png_dimensions(bytes: &[u8]) -> (r: Option<(u32, u32)>)
    ensures
        r == png_dimensions_spec(bytes@),
{
    if bytes.len() < 24 {
        return None;
    }
    let sig = bytes[0] == 0x89 && bytes[1] == 0x50 && bytes[2] == 0x4e && bytes[3] == 0x47 && bytes[4] == 0x0d
        && bytes[5] == 0x0a && bytes[6] == 0x1a && bytes[7] == 0x0a;
    let ihdr = bytes[12] == 0x49 && bytes[13] == 0x48 && bytes[14] == 0x44 && bytes[15] == 0x52;
    proof {
        let want = seq![0x89u8, 0x50, 0x4e, 0x47, 0x0d, 0x0a, 0x1a, 0x0a];
        if sig {
            assert(bytes@.take(8) =~= want);
        } else {
            if bytes@.take(8) == want {
                assert(bytes@.take(8)[0] == bytes@[0]);
                assert(bytes@.take(8)[1] == bytes@[1]);
                assert(bytes@.take(8)[2] == bytes@[2]);
                assert(bytes@.take(8)[3] == bytes@[3]);
                assert(bytes@.take(8)[4] == bytes@[4]);
                assert(bytes@.take(8)[5] == bytes@[5]);
                assert(bytes@.take(8)[6] == bytes@[6]);
                assert(bytes@.take(8)[7] == bytes@[7]);
            }
        }
        let tag = seq![0x49u8, 0x48, 0x44, 0x52];
        if ihdr {
            assert(bytes@.subrange(12, 16) =~= tag);
        } else {
            if bytes@.subrange(12, 16) == tag {
                assert(bytes@.subrange(12, 16)[0] == bytes@[12]);
                assert(bytes@.subrange(12, 16)[1] == bytes@[13]);
                assert(bytes@.subrange(12, 16)[2] == bytes@[14]);
                assert(bytes@.subrange(12, 16)[3] == bytes@[15]);
            }
        }
    }
    if !sig || !ihdr {
        return None;
    }
    let w = be_u32_exec(bytes[16], bytes[17], bytes[18], bytes[19]);
    let h = be_u32_exec(bytes[20], bytes[21], bytes[22], bytes[23]);
    Some((w, h))
}

} // verus!

verus! {

// ---------------------------------------------------------------------------
// Choosing the device
// ---------------------------------------------------------------------------

/// The identifiers of the cameras whose identifier or name is the selector,
/// in order.
pub open spec fn matching_ids(cams: Seq<CameraDescriptor>, device: Seq<char>) -> Seq<Seq<char>>
    decreases cams.len(),
{
    if cams.len() == 0 {
        seq![]
    } else {
        matching_ids(cams.drop_last(), device) + if cams.last().id@ == device || cams.last().name@ == device {
            seq![cams.last().id@]
        } else {
            seq![]
        }
    }
}

/// The message for a name several cameras share.
pub open spec fn ambiguous_camera_message(device: Seq<char>, ids: Seq<Seq<char>>) -> Seq<char> {
    "camera name `"@ + device + "` is ambiguous; use one of the device ids from `tendril list`: "@ + text::joined(
        ids,
        ", "@,
    )
}

fn same_str(a: &str, b: &str) -> (r: bool)
    ensures
        r == (a@ == b@),
{
    let x = text::chars_of(a);
    let y = text::chars_of(b);
    text::same(x.as_slice(), y.as_slice())
}

/// The device node a Linux camera selector names: an existing path as
/// given, else the one camera whose identifier or name it is; none is a
/// target-not-found error, several an ambiguity error listing them.
pub fn resolve_linux_camera_device(device: &str, path_exists: bool, cameras: &Vec<CameraDescriptor>) -> (r: Result<
    String,
    TendrilError,
>)
    ensures
        path_exists ==> (r matches Ok(s) && s@ == device@),
        !path_exists ==> ({
            let ids = matching_ids(cameras@, device@);
            &&& ids.len() == 1 ==> (r matches Ok(s) && s@ == ids[0])
            &&& ids.len() == 0 ==> (r matches Err(e) && e.code_spec() == "target_not_found"@
                && e.category_spec() == ErrorCategory::TargetNotFound && e.message_spec()
                == "camera"@ + " `"@ + device@ + "` was not found"@)
            &&& ids.len() > 1 ==> (r matches Err(e) && crate::error::is_invalid(
                e,
                "ambiguous_camera_selector"@,
                "camera"@,
                ambiguous_camera_message(device@, ids),
            ))
        }),
{
    if path_exists {
        return Ok(owned(device));
    }
    let mut ids: Vec<String> = Vec::new();
    let mut i: usize = 0;
    assert(cameras@.take(0) =~= Seq::<CameraDescriptor>::empty());
    while i < cameras.len()
        invariant
            i <= cameras@.len(),
            strings_view(ids@) == matching_ids(cameras@.take(i as int), device@),
        decreases cameras.len() - i,
    {
        let c = &cameras[i];
        proof {
            assert(cameras@.take(i + 1).drop_last() =~= cameras@.take(i as int));
            assert(cameras@.take(i + 1).last() == *c);
        }
        if same_str(c.id.as_str(), device) || same_str(c.name.as_str(), device) {
            let ghost before = ids@;
            let id = c.id.clone();
            ids.push(id);
            assert(strings_view(ids@) =~= strings_view(before).push(c.id@));
        } else {
            assert(matching_ids(cameras@.take(i + 1), device@) =~= matching_ids(cameras@.take(i as int), device@));
        }
        i += 1;
    }
    assert(cameras@.take(i as int) =~= cameras@);
    if ids.len() == 1 {
        assert(strings_view(ids@)[0] == ids@[0]@);
        return Ok(ids[0].clone());
    }
    if ids.len() == 0 {
        return Err(TendrilError::target_not_found("camera", device));
    }
    let mut m = owned("camera name `");
    text::push_str(&mut m, device);
    text::push_str(&mut m, "` is ambiguous; use one of the device ids from `tendril list`: ");
    text::push_str(&mut m, text::join_strings(&ids, ", ").as_str());
    Err(TendrilError::invalid(m, "ambiguous_camera_selector", "camera"))
}

/// Whether some camera has the identifier.
pub open spec fn has_camera_id(cams: Seq<CameraDescriptor>, device: Seq<char>) -> bool {
    exists|i: int| 0 <= i < cams.len() && (#[trigger] cams[i]).id@ == device
}

/// The identifiers of the cameras with the name, in order.
pub open spec fn named_ids(cams: Seq<CameraDescriptor>, name: Seq<char>) -> Seq<Seq<char>>
    decreases cams.len(),
{
    if cams.len() == 0 {
        seq![]
    } else {
        named_ids(cams.drop_last(), name) + if cams.last().name@ == name {
            seq![cams.last().id@]
        } else {
            seq![]
        }
    }
}

/// The DirectShow selector for a Windows camera: a known identifier as is,
/// else the identifier of the one camera with that name, else the selector
/// itself.
pub fn resolve_windows_camera_device(device: &str, cameras: &Vec<CameraDescriptor>) -> (r: String)
    ensures
        r@ == if has_camera_id(cameras@, device@) {
            device@
        } else if named_ids(cameras@, device@).len() == 1 {
            named_ids(cameras@, device@)[0]
        } else {
            device@
        },
{
    let mut ids: Vec<String> = Vec::new();
    let mut i: usize = 0;
    assert(cameras@.take(0) =~= Seq::<CameraDescriptor>::empty());
    while i < cameras.len()
        invariant
            i <= cameras@.len(),
            strings_view(ids@) == named_ids(cameras@.take(i as int), device@),
            forall|j: int| 0 <= j < i ==> (#[trigger] cameras@[j]).id@ != device@,
        decreases cameras.len() - i,
    {
        let c = &cameras[i];
        proof {
            assert(cameras@.take(i + 1).drop_last() =~= cameras@.take(i as int));
            assert(cameras@.take(i + 1).last() == *c);
        }
        if same_str(c.id.as_str(), device) {
            return owned(device);
        }
        if same_str(c.name.as_str(), device) {
            let ghost before = ids@;
            let id = c.id.clone();
            ids.push(id);
            assert(strings_view(ids@) =~= strings_view(before).push(c.id@));
        } else {
            assert(named_ids(cameras@.take(i + 1), device@) =~= named_ids(cameras@.take(i as int), device@));
        }
        i += 1;
    }
    assert(cameras@.take(i as int) =~= cameras@);
    if ids.len() == 1 {
        assert(strings_view(ids@)[0] == ids@[0]@);
        ids[0].clone()
    } else {
        owned(device)
    }
}

// ---------------------------------------------------------------------------
// Running ffmpeg
// ---------------------------------------------------------------------------

/// The ffmpeg input backend a platform captures through.
pub open spec fn camera_backend_spec(platform: PlatformKind) -> Option<Seq<char>> {
    match platform {
        PlatformKind::MacOs => Some("AVFoundation"@),
        PlatformKind::Linux => Some("V4L2"@),
        PlatformKind::Windows11 => Some("DirectShow"@),
        PlatformKind::Android => None,
    }
}

/// The backend name and ffmpeg arguments for one frame from a resolved
/// device into `output`; other platforms cannot capture from a camera.
pub fn plan_camera_capture(platform: PlatformKind, device: &str, output: &str) -> (r: Result<
    (&'static str, Vec<String>),
    TendrilError,
>)
    ensures
        match camera_backend_spec(platform) {
            Some(b) => r matches Ok((name, args)) && name@ == b && strings_view(args@) == match platform {
                PlatformKind::MacOs => capture_args_spec(
                    seq!["-f"@, "avfoundation"@, "-framerate"@, "30"@, "-i"@, device@],
                    output@,
                ),
                PlatformKind::Linux => capture_args_spec(seq!["-f"@, "v4l2"@, "-i"@, device@], output@),
                _ => capture_args_spec(seq!["-f"@, "dshow"@, "-i"@, "video="@ + device@], output@),
            },
            None => r matches Err(e) && e.code_spec() == "camera_capture_unsupported_platform"@ && e.message_spec()
                == "camera capture is supported on macOS, Linux, and Windows"@ && crate::error::is_text_detail(
                e.detail_spec("device"@),
                device@,
            ),
        },
{
    match platform {
        PlatformKind::MacOs => Ok(("AVFoundation", avfoundation_capture_args(device, output, AVFOUNDATION_DEFAULT_FRAMERATE))),
        PlatformKind::Linux => Ok(("V4L2", v4l2_capture_args(device, output))),
        PlatformKind::Windows11 => Ok(("DirectShow", dshow_capture_args(device, output))),
        PlatformKind::Android => Err(
            TendrilError::unsupported_capability(
                "camera_capture_unsupported_platform",
                owned("camera capture is supported on macOS, Linux, and Windows"),
            ).with_detail_entry("device", DetailValue::Text(owned(device))),
        ),
    }
}

/// The frame rate to retry an AVFoundation capture at: after a failure, the
/// first rate ffmpeg advertised, when it is not the one already asked for.
pub fn framerate_retry(platform: PlatformKind, succeeded: bool, stderr: &str) -> (r: Option<String>)
    ensures
        match r {
            Some(f) => platform == PlatformKind::MacOs && !succeeded && first_framerate(lines(stderr@)) == Some(f@)
                && f@ != "30"@,
            None => !(platform == PlatformKind::MacOs && !succeeded && (first_framerate(lines(stderr@)) matches Some(f)
                && f != "30"@)),
        },
{
    if platform != PlatformKind::MacOs || succeeded {
        return None;
    }
    match parse_avfoundation_supported_framerate(stderr) {
        Some(f) => {
            if same_str(f.as_str(), AVFOUNDATION_DEFAULT_FRAMERATE) {
                None
            } else {
                Some(f)
            }
        },
        None => None,
    }
}

/// The install advice for a platform without ffmpeg.
pub open spec fn ffmpeg_install_hint_spec(platform: PlatformKind) -> Seq<char> {
    match platform {
        PlatformKind::MacOs =>
            "camera capture requires `ffmpeg` on PATH; install it with `brew install ffmpeg` and retry"@,
        PlatformKind::Windows11 =>
            "camera capture requires `ffmpeg.exe` with DirectShow support on PATH; install FFmpeg (for example `winget install Gyan.FFmpeg`) and retry"@,
        _ =>
            "camera capture requires `ffmpeg` with V4L2 support on PATH; install it with your system package manager and retry"@,
    }
}

pub fn ffmpeg_install_hint(platform: PlatformKind) -> (r: &'static str)
    ensures
        r@ == ffmpeg_install_hint_spec(platform),
{
    match platform {
        PlatformKind::MacOs => "camera capture requires `ffmpeg` on PATH; install it with `brew install ffmpeg` and retry",
        PlatformKind::Windows11 =>
            "camera capture requires `ffmpeg.exe` with DirectShow support on PATH; install FFmpeg (for example `winget install Gyan.FFmpeg`) and retry",
        _ =>
            "camera capture requires `ffmpeg` with V4L2 support on PATH; install it with your system package manager and retry",
    }
}

/// Whether the error is a camera capture failure with the message, naming
/// the backend and device.
pub open spec fn is_capture_failure(e: TendrilError, message: Seq<char>, backend: Seq<char>, device: Seq<char>) -> bool {
    &&& e.is_structured()
    &&& e.category_spec() == ErrorCategory::ExecutionFailure
    &&& e.code_spec() == "camera_capture_failed"@
    &&& e.message_spec() == message
    &&& crate::error::is_text_detail(e.detail_spec("backend"@), backend)
    &&& crate::error::is_text_detail(e.detail_spec("device"@), device)
}

fn capture_failure(message: String, backend: &str, device: &str) -> (e: TendrilError)
    ensures
        is_capture_failure(e, message@, backend@, device@),
{
    proof {
        reveal_strlit("backend");
        reveal_strlit("device");
        assert("backend"@ != "device"@) by {
            assert("backend"@.len() != "device"@.len());
        }
    }
    TendrilError::execution_failure("camera_capture_failed", message).with_detail_entry(
        "backend",
        DetailValue::Text(owned(backend)),
    ).with_detail_entry("device", DetailValue::Text(owned(device)))
}

/// The error for an ffmpeg run that failed: its trimmed diagnostics.
pub fn camera_capture_failed(backend: &str, device: &str, stderr: &str) -> (e: TendrilError)
    ensures
        is_capture_failure(
            e,
            "ffmpeg "@ + backend@ + " failed to capture from camera `"@ + device@ + "`: "@ + text::trim(stderr@),
            backend@,
            device@,
        ),
{
    let mut m = owned("ffmpeg ");
    text::push_str(&mut m, backend);
    text::push_str(&mut m, " failed to capture from camera `");
    text::push_str(&mut m, device);
    text::push_str(&mut m, "`: ");
    let c = text::chars_of(stderr);
    text::push_str(&mut m, text::string_of(text::trimmed(c.as_slice()).as_slice()).as_str());
    capture_failure(m, backend, device)
}

/// The error for a frame file that could not be read after ffmpeg succeeded.
pub fn frame_read_failed(backend: &str, device: &str, reason: &str) -> (e: TendrilError)
    ensures
        is_capture_failure(
            e,
            "ffmpeg reported success but the camera frame could not be read: "@ + reason@,
            backend@,
            device@,
        ),
{
    let mut m = owned("ffmpeg reported success but the camera frame could not be read: ");
    text::push_str(&mut m, reason);
    capture_failure(m, backend, device)
}

/// The error for ffmpeg that could not be started: missing, it is an
/// unsupported capability with install advice; otherwise a capture failure.
pub fn ffmpeg_launch_failed(platform: PlatformKind, backend: &str, device: &str, not_found: bool, reason: &str) -> (e: TendrilError)
    ensures
        not_found ==> {
            &&& e.is_structured()
            &&& e.category_spec() == ErrorCategory::UnsupportedCapability
            &&& e.code_spec() == "camera_capture_backend_unavailable"@
            &&& e.message_spec() == ffmpeg_install_hint_spec(platform)
            &&& crate::error::is_text_detail(e.detail_spec("backend"@), backend@)
            &&& crate::error::is_text_detail(e.detail_spec("device"@), device@)
            &&& crate::error::is_text_detail(e.detail_spec("program"@), "ffmpeg"@)
        },
        !not_found ==> is_capture_failure(
            e,
            "failed to launch ffmpeg "@ + backend@ + " camera capture: "@ + reason@,
            backend@,
            device@,
        ),
{
    if not_found {
        proof {
            reveal_strlit("backend");
            reveal_strlit("device");
            reveal_strlit("program");
            assert("backend"@ != "device"@) by {
                assert("backend"@.len() != "device"@.len());
            }
            assert("backend"@ != "program"@) by {
                assert("backend"@[0] != "program"@[0]);
            }
            assert("device"@ != "program"@) by {
                assert("device"@.len() != "program"@.len());
            }
        }
        return TendrilError::unsupported_capability(
            "camera_capture_backend_unavailable",
            owned(ffmpeg_install_hint(platform)),
        ).with_detail_entry("backend", DetailValue::Text(owned(backend))).with_detail_entry(
            "device",
            DetailValue::Text(owned(device)),
        ).with_detail_entry("program", DetailValue::Text(owned(FFMPEG_BIN)));
    }
    let mut m = owned("failed to launch ffmpeg ");
    text::push_str(&mut m, backend);
    text::push_str(&mut m, " camera capture: ");
    text::push_str(&mut m, reason);
    capture_failure(m, backend, device)
}

/// The temporary frame file's name: `tendril-camera-PID-NANOS.png`.
pub fn unique_capture_name(pid: u32, nanos: u64) -> (r: String)
    ensures
        r@ == "tendril-camera-"@ + decimal(pid as nat) + "-"@ + decimal(nanos as nat) + ".png"@,
{
    let mut r = owned("tendril-camera-");
    text::push_str(&mut r, text::format_u64(pid as u64).as_str());
    text::push_str(&mut r, "-");
    text::push_str(&mut r, text::format_u64(nanos).as_str());
    text::push_str(&mut r, ".png");
    r
}

} // verus!
