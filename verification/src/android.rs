//! The Android backend's logic: device and app summaries, the UIAutomator
//! dump parser, selector matching, the `adb` outputs it reads (`wm size`,
//! `dumpsys`, `adb devices`, package queries) and the plans it turns input
//! actions into. Running `adb` itself is the caller's part.
use vstd::prelude::*;

use crate::error::{is_invalid, DetailValue, TendrilError};
use crate::model::{
    Bounds, CapabilitySet, ElementDescriptor, ElementListOutput, InputAction, ListOutput, MouseButton, ScaleFactor,
    TargetDescriptor, TargetKind, TargetSelector,
};
use crate::platform::{AdapterInfo, DesktopSession, PlatformKind};
use crate::text::{self, all_digits, decimal, lower, owned, trim, upper};

verus! {

/// Where the UIAutomator dump is written on the device.
pub const ANDROID_XML_PATH: &'static str = "/sdcard/tendril-window.xml";
/// Duration of the swipes drags and scrolls become.
pub const DEFAULT_SWIPE_MS: u64 = 450;

/// What `adb` reports about the device.
#[derive(Debug, Clone, PartialEq, Eq)]
pub struct AndroidDeviceSummary {
    pub serial: String,
    pub state: String,
    pub model: Option<String>,
    pub wm_size: Option<String>,
    pub wm_density: Option<String>,
    pub focused_window: Option<String>,
    pub active_app: Option<AndroidAppSummary>,
    pub recent_apps: Vec<AndroidAppSummary>,
    pub launchable_app_count: usize,
    pub artifact_dir: String,
}

/// An app found on the device.
#[derive(Debug, Clone, PartialEq, Eq)]
pub struct AndroidAppSummary {
    pub package: String,
    pub activity: Option<String>,
    pub label: Option<String>,
    pub state: AndroidAppState,
}

/// Where an app was found: in focus, among the recent tasks, or among the
/// launcher activities.
#[derive(Debug, Clone, Copy, PartialEq, Eq, Structural)]
pub enum AndroidAppState {
    Active,
    Recent,
    Launchable,
}

/// A device reachable through `adb`, with the directory its artifacts go to.
#[derive(Debug, Clone)]
pub struct AndroidDevice {
    serial: String,
    artifact_dir: String,
}

impl AndroidDevice {
    pub closed spec fn serial_spec(&self) -> Seq<char> {
        self.serial@
    }

    pub closed spec fn artifact_dir_spec(&self) -> Seq<char> {
        self.artifact_dir@
    }

    /// A device with the given serial whose artifacts go to `artifact_dir`.
    pub fn new(serial: String, artifact_dir: String) -> (d: Self)
        ensures
            d.serial_spec() == serial@,
            d.artifact_dir_spec() == artifact_dir@,
    {
        AndroidDevice { serial, artifact_dir }
    }

    #[must_use]
    pub fn serial(&self) -> (r: &str)
        ensures
            r@ == self.serial_spec(),
    {
        self.serial.as_str()
    }

    #[must_use]
    pub fn artifact_dir(&self) -> (r: &str)
        ensures
            r@ == self.artifact_dir_spec(),
    {
        self.artifact_dir.as_str()
    }
}

/// The adapter description every Android answer carries.
pub open spec fn android_adapter_spec() -> AdapterInfo {
    AdapterInfo {
        platform: PlatformKind::Android,
        session: DesktopSession::AndroidDevice,
        audio_backend: None,
        stateless: true,
    }
}

pub fn android_adapter_info() -> (r: AdapterInfo)
    ensures
        r == android_adapter_spec(),
{
    AdapterInfo {
        platform: PlatformKind::Android,
        session: DesktopSession::AndroidDevice,
        audio_backend: None,
        stateless: true,
    }
}

/// `android:SERIAL`, the device's display target.
pub fn android_target_id(serial: &str) -> (r: String)
    ensures
        r@ == "android:"@ + serial@,
{
    let mut r = owned("android:");
    text::push_str(&mut r, serial);
    r
}

/// `android:SERIAL:app:PACKAGE`, an app's window target.
pub fn android_app_target_id(serial: &str, package: &str) -> (r: String)
    ensures
        r@ == "android:"@ + serial@ + ":app:"@ + package@,
{
    let mut r = owned("android:");
    text::push_str(&mut r, serial);
    text::push_str(&mut r, ":app:");
    text::push_str(&mut r, package);
    r
}

/// Whether a file name may keep the character.
pub open spec fn filename_safe(c: char) -> bool {
    text::is_ascii_alnum(c) || c == '-' || c == '_' || c == '.'
}

/// The value with every character a file name may not keep replaced by `_`.
pub open spec fn sanitized_filename(v: Seq<char>) -> Seq<char> {
    v.map_values(|c: char| if filename_safe(c) { c } else { '_' })
}

pub fn sanitize_filename(value: &str) -> (r: String)
    ensures
        r@ == sanitized_filename(value@),
{
    let chars = text::chars_of(value);
    let mut out: Vec<char> = Vec::new();
    let mut i: usize = 0;
    while i < chars.len()
        invariant
            i <= chars@.len(),
            out@ == sanitized_filename(chars@.take(i as int)),
        decreases chars.len() - i,
    {
        let c = chars[i];
        if text::is_alnum(c) || c == '-' || c == '_' || c == '.' {
            out.push(c);
        } else {
            out.push('_');
        }
        assert(out@ =~= sanitized_filename(chars@.take(i + 1)));
        i += 1;
    }
    assert(chars@.take(i as int) =~= chars@);
    text::string_of(out.as_slice())
}

/// What `adb shell input text` needs in place of a character.
pub open spec fn input_escape(c: char) -> Seq<char> {
    if c == '%' {
        "%25"@
    } else if c == ' ' {
        "%s"@
    } else if c == '\\' {
        "\\\\"@
    } else if c == '"' {
        "\\\""@
    } else if c == '\'' {
        "\\'"@
    } else {
        seq![c]
    }
}

/// Text escaped for `adb shell input text`: `%` as `%25`, spaces as `%s`,
/// and backslashes and quotes behind a backslash.
pub open spec fn escaped_input(s: Seq<char>) -> Seq<char>
    decreases s.len(),
{
    if s.len() == 0 {
        seq![]
    } else {
        escaped_input(s.drop_last()) + input_escape(s.last())
    }
}

pub fn escape_android_input_text(text_in: &str) -> (r: String)
    ensures
        r@ == escaped_input(text_in@),
{
    let chars = text::chars_of(text_in);
    let mut r = String::new();
    let mut i: usize = 0;
    while i < chars.len()
        invariant
            i <= chars@.len(),
            r@ == escaped_input(chars@.take(i as int)),
        decreases chars.len() - i,
    {
        let c = chars[i];
        let ghost before = r@;
        if c == '%' {
            text::push_str(&mut r, "%25");
        } else if c == ' ' {
            text::push_str(&mut r, "%s");
        } else if c == '\\' {
            text::push_str(&mut r, "\\\\");
        } else if c == '"' {
            text::push_str(&mut r, "\\\"");
        } else if c == '\'' {
            text::push_str(&mut r, "\\'");
        } else {
            text::push_char(&mut r, c);
        }
        proof {
            assert(chars@.take(i + 1).drop_last() =~= chars@.take(i as int));
            assert(r@ =~= before + input_escape(c));
        }
        i += 1;
    }
    assert(chars@.take(i as int) =~= chars@);
    r
}

/// A key name as the key table reads it: trimmed, upper-cased, `-` as `_`.
pub open spec fn normalized_key(key: Seq<char>) -> Seq<char> {
    upper(trim(key)).map_values(|c: char| if c == '-' { '_' } else { c })
}

/// The `KEYCODE_*` a normalized key name stands for.
pub open spec fn key_code_for(n: Seq<char>) -> Option<Seq<char>> {
    if n == "BACK"@ || n == "ESC"@ || n == "ESCAPE"@ {
        Some("KEYCODE_BACK"@)
    } else if n == "HOME"@ {
        Some("KEYCODE_HOME"@)
    } else if n == "RECENTS"@ || n == "APP_SWITCH"@ || n == "APPSWITCH"@ {
        Some("KEYCODE_APP_SWITCH"@)
    } else if n == "ASSIST"@ || n == "ASSISTANT"@ {
        Some("KEYCODE_ASSIST"@)
    } else if n == "SEARCH"@ {
        Some("KEYCODE_SEARCH"@)
    } else if n == "NOTIFICATION"@ || n == "NOTIFICATIONS"@ {
        Some("KEYCODE_NOTIFICATION"@)
    } else if n == "ENTER"@ || n == "RETURN"@ {
        Some("KEYCODE_ENTER"@)
    } else if n == "WAKEUP"@ || n == "WAKE"@ {
        Some("KEYCODE_WAKEUP"@)
    } else if n == "MENU"@ {
        Some("KEYCODE_MENU"@)
    } else if n == "TAB"@ {
        Some("KEYCODE_TAB"@)
    } else if n == "SPACE"@ {
        Some("KEYCODE_SPACE"@)
    } else if n == "DELETE"@ || n == "BACKSPACE"@ {
        Some("KEYCODE_DEL"@)
    } else if n == "VOLUME_UP"@ || n == "VOLUP"@ {
        Some("KEYCODE_VOLUME_UP"@)
    } else if n == "VOLUME_DOWN"@ || n == "VOLDOWN"@ {
        Some("KEYCODE_VOLUME_DOWN"@)
    } else if n == "POWER"@ {
        Some("KEYCODE_POWER"@)
    } else {
        None
    }
}

/// The `input keyevent` argument for a key: an all-digit key code as given,
/// else the `KEYCODE_*` its name stands for.
pub open spec fn android_key_spec(key: Seq<char>) -> Option<Seq<char>> {
    if all_digits(key) {
        Some(key)
    } else {
        key_code_for(normalized_key(key))
    }
}

fn key_code(n: &[char]) -> (r: Option<&'static str>)
    ensures
        match key_code_for(n@) {
            Some(c) => r matches Some(s) && s@ == c,
            None => r is None,
        },
{
    if text::is(n, "BACK") || text::is(n, "ESC") || text::is(n, "ESCAPE") {
        Some("KEYCODE_BACK")
    } else if text::is(n, "HOME") {
        Some("KEYCODE_HOME")
    } else if text::is(n, "RECENTS") || text::is(n, "APP_SWITCH") || text::is(n, "APPSWITCH") {
        Some("KEYCODE_APP_SWITCH")
    } else if text::is(n, "ASSIST") || text::is(n, "ASSISTANT") {
        Some("KEYCODE_ASSIST")
    } else if text::is(n, "SEARCH") {
        Some("KEYCODE_SEARCH")
    } else if text::is(n, "NOTIFICATION") || text::is(n, "NOTIFICATIONS") {
        Some("KEYCODE_NOTIFICATION")
    } else if text::is(n, "ENTER") || text::is(n, "RETURN") {
        Some("KEYCODE_ENTER")
    } else if text::is(n, "WAKEUP") || text::is(n, "WAKE") {
        Some("KEYCODE_WAKEUP")
    } else if text::is(n, "MENU") {
        Some("KEYCODE_MENU")
    } else if text::is(n, "TAB") {
        Some("KEYCODE_TAB")
    } else if text::is(n, "SPACE") {
        Some("KEYCODE_SPACE")
    } else if text::is(n, "DELETE") || text::is(n, "BACKSPACE") {
        Some("KEYCODE_DEL")
    } else if text::is(n, "VOLUME_UP") || text::is(n, "VOLUP") {
        Some("KEYCODE_VOLUME_UP")
    } else if text::is(n, "VOLUME_DOWN") || text::is(n, "VOLDOWN") {
        Some("KEYCODE_VOLUME_DOWN")
    } else if text::is(n, "POWER") {
        Some("KEYCODE_POWER")
    } else {
        None
    }
}

pub fn android_key_event(key: &str) -> (r: Option<String>)
    ensures
        match android_key_spec(key@) {
            Some(c) => r matches Some(s) && s@ == c,
            None => r is None,
        },
{
    let chars = text::chars_of(key);
    if text::digits_only(chars.as_slice()) {
        return Some(owned(key));
    }
    let up = text::to_upper(text::trimmed(chars.as_slice()).as_slice());
    let mut n: Vec<char> = Vec::new();
    let mut i: usize = 0;
    while i < up.len()
        invariant
            i <= up@.len(),
            n@ == up@.take(i as int).map_values(|c: char| if c == '-' { '_' } else { c }),
        decreases up.len() - i,
    {
        let c = up[i];
        n.push(if c == '-' { '_' } else { c });
        assert(n@ =~= up@.take(i + 1).map_values(|c: char| if c == '-' { '_' } else { c }));
        i += 1;
    }
    assert(up@.take(i as int) =~= up@);
    match key_code(n.as_slice()) {
        Some(code) => Some(owned(code)),
        None => None,
    }
}

/// A package name: it holds a dot, and only ASCII letters, digits, `_` and
/// `.`.
pub open spec fn looks_like_package_spec(v: Seq<char>) -> bool {
    text::has_char(v, '.') && forall|i: int|
        0 <= i < v.len() ==> (text::is_ascii_alnum(#[trigger] v[i]) || v[i] == '_' || v[i] == '.')
}

pub fn looks_like_package(value: &[char]) -> (r: bool)
    ensures
        r == looks_like_package_spec(value@),
{
    if !text::contains_char(value, '.') {
        return false;
    }
    let mut i: usize = 0;
    while i < value.len()
        invariant
            i <= value@.len(),
            forall|j: int| 0 <= j < i ==> (text::is_ascii_alnum(#[trigger] value@[j]) || value@[j] == '_' || value@[j] == '.'),
        decreases value.len() - i,
    {
        let c = value[i];
        if !(text::is_alnum(c) || c == '_' || c == '.') {
            return false;
        }
        i += 1;
    }
    true
}

} // verus!

verus! {

// ---------------------------------------------------------------------------
// The UIAutomator dump
// ---------------------------------------------------------------------------

proof fn lemma_starts_with_skip(s: Seq<char>, p: Seq<char>, i: int)
    requires
        0 <= i <= s.len(),
    ensures
        text::starts_with(s.skip(i), p) == text::occurs_at(s, p, i),
{
    if i + p.len() <= s.len() {
        assert(s.skip(i).subrange(0, p.len() as int) =~= s.subrange(i, i + p.len()));
    }
}

/// Whether the literal starts at index `i`.
fn lit_at(s: &[char], lit: &str, i: usize) -> (r: bool)
    requires
        i <= s@.len(),
    ensures
        r == text::starts_with(s@.skip(i as int), lit@),
{
    let p = text::chars_of(lit);
    proof {
        lemma_starts_with_skip(s@, lit@, i as int);
    }
    text::matches_at(s, p.as_slice(), i)
}

/// XML text with the five predefined entities decoded, read left to right.
pub open spec fn decoded(s: Seq<char>) -> Seq<char>
    decreases s.len(),
{
    if s.len() == 0 {
        seq![]
    } else if s.len() >= 6 && text::starts_with(s, "&quot;"@) {
        seq!['"'] + decoded(s.skip(6))
    } else if s.len() >= 6 && text::starts_with(s, "&apos;"@) {
        seq!['\''] + decoded(s.skip(6))
    } else if s.len() >= 4 && text::starts_with(s, "&lt;"@) {
        seq!['<'] + decoded(s.skip(4))
    } else if s.len() >= 4 && text::starts_with(s, "&gt;"@) {
        seq!['>'] + decoded(s.skip(4))
    } else if s.len() >= 5 && text::starts_with(s, "&amp;"@) {
        seq!['&'] + decoded(s.skip(5))
    } else {
        seq![s[0]] + decoded(s.skip(1))
    }
}

pub fn decode_xml_entities(value: &[char]) -> (r: Vec<char>)
    ensures
        r@ == decoded(value@),
{
    proof {
        reveal_strlit("&quot;");
        reveal_strlit("&apos;");
        reveal_strlit("&lt;");
        reveal_strlit("&gt;");
        reveal_strlit("&amp;");
        assert("&quot;"@.len() == 6 && "&apos;"@.len() == 6 && "&lt;"@.len() == 4);
        assert("&gt;"@.len() == 4 && "&amp;"@.len() == 5);
    }
    let mut out: Vec<char> = Vec::new();
    let mut i: usize = 0;
    assert(value@.skip(0) =~= value@);
    while i < value.len()
        invariant
            i <= value@.len(),
            out@ + decoded(value@.skip(i as int)) == decoded(value@),
        decreases value.len() - i,
    {
        let ghost rest = value@.skip(i as int);
        proof {
            reveal_strlit("&quot;");
            reveal_strlit("&apos;");
            reveal_strlit("&lt;");
            reveal_strlit("&gt;");
            reveal_strlit("&amp;");
        }
        let mut c: char = value[i];
        let mut k: usize = 1;
        if lit_at(value, "&quot;", i) {
            c = '"';
            k = 6;
        } else if lit_at(value, "&apos;", i) {
            c = '\'';
            k = 6;
        } else if lit_at(value, "&lt;", i) {
            c = '<';
            k = 4;
        } else if lit_at(value, "&gt;", i) {
            c = '>';
            k = 4;
        } else if lit_at(value, "&amp;", i) {
            c = '&';
            k = 5;
        }
        proof {
            assert(rest.len() > 0);
            assert(i + k <= value@.len());
            assert(rest.skip(k as int) =~= value@.skip(i + k));
            assert(decoded(rest) == seq![c] + decoded(rest.skip(k as int)));
        }
        out.push(c);
        assert(out@ + decoded(value@.skip(i + k)) =~= decoded(value@));
        i += k;
    }
    assert(value@.skip(i as int) =~= Seq::<char>::empty());
    assert(out@ =~= decoded(value@));
    out
}

/// The decoded value of `name="..."` in a tag, where it is present and not
/// empty: the first occurrence of `name="` counts.
pub open spec fn attr_spec(tag: Seq<char>, name: Seq<char>) -> Option<Seq<char>> {
    let needle = name + "=\""@;
    match text::first_index(tag, needle) {
        None => None,
        Some(i) => {
            let rest = tag.skip(i + needle.len());
            match text::index_of(rest, '"') {
                None => None,
                Some(e) => {
                    let v = decoded(rest.take(e));
                    if v.len() == 0 {
                        None
                    } else {
                        Some(v)
                    }
                },
            }
        },
    }
}

#[verifier::rlimit(40)]
pub fn attr(tag: &[char], name: &str) -> (r: Option<String>)
    ensures
        match attr_spec(tag@, name@) {
            Some(v) => r matches Some(s) && s@ == v,
            None => r is None,
        },
{
    let mut needle = owned(name);
    text::push_str(&mut needle, "=\"");
    let ghost nv = needle@;
    let found = text::find_first_lit(tag, needle.as_str());
    let start = match found {
        Some(i) => {
            let n = needle.unicode_len();
            let tl = tag.len();
            assert(i + n <= tl);
            i + n
        },
        None => return None,
    };
    let rest = text::slice_vec(tag, start, tag.len());
    assert(rest@ =~= tag@.skip(start as int));
    let end = match text::index_of_char(rest.as_slice(), '"') {
        Some(e) => e,
        None => return None,
    };
    let raw = text::slice_vec(rest.as_slice(), 0, end);
    assert(raw@ =~= rest@.take(end as int));
    let v = decode_xml_entities(raw.as_slice());
    if v.len() == 0 {
        None
    } else {
        Some(text::string_of(v.as_slice()))
    }
}

/// Whether the attribute reads `true`.
pub open spec fn bool_attr_spec(tag: Seq<char>, name: Seq<char>) -> bool {
    attr_spec(tag, name) == Some("true"@)
}

pub fn bool_attr(tag: &[char], name: &str) -> (r: bool)
    ensures
        r == bool_attr_spec(tag@, name@),
{
    match attr(tag, name) {
        Some(v) => {
            let c = text::chars_of(v.as_str());
            text::is(c.as_slice(), "true")
        },
        None => false,
    }
}

/// `i32::saturating_sub`.
pub open spec fn sat_sub_i32(a: i32, b: i32) -> int {
    let d = a - b;
    if d > i32::MAX {
        i32::MAX as int
    } else if d < i32::MIN {
        i32::MIN as int
    } else {
        d
    }
}

/// The two corner texts of `[x0,y0][x1,y1]`.
pub open spec fn corners_spec(v: Seq<char>) -> Option<(Seq<char>, Seq<char>)> {
    if v.len() == 0 || v[0] != '[' {
        None
    } else {
        let inner = v.skip(1);
        match text::first_index(inner, "]["@) {
            None => None,
            Some(k) => {
                let rest = inner.skip(k + 2);
                if rest.len() == 0 || rest.last() != ']' {
                    None
                } else {
                    Some((inner.take(k), rest.drop_last()))
                }
            },
        }
    }
}

/// Two numbers separated by the first comma.
pub open spec fn i32_pair_spec(s: Seq<char>) -> Option<(i32, i32)> {
    match text::index_of(s, ',') {
        Some(a) => match (text::parse_i32_spec(s.take(a)), text::parse_i32_spec(s.skip(a + 1))) {
            (Some(x), Some(y)) => Some((x, y)),
            _ => None,
        },
        None => None,
    }
}

/// The rectangle of `[x0,y0][x1,y1]`; `None` unless the four numbers are
/// `i32`s and the corners are in order.
pub open spec fn parse_bounds_spec(v: Seq<char>) -> Option<Bounds> {
    match corners_spec(v) {
        Some((left_top, bottom_right)) => match (i32_pair_spec(left_top), i32_pair_spec(bottom_right)) {
            (Some((x0, y0)), Some((x1, y1))) => {
                let w = sat_sub_i32(x1, x0);
                let h = sat_sub_i32(y1, y0);
                if w < 0 || h < 0 {
                    None
                } else {
                    Some(Bounds { x: x0, y: y0, width: w as u32, height: h as u32 })
                }
            },
            _ => None,
        },
        None => None,
    }
}

fn split_i32_pair(s: &[char]) -> (r: Option<(i32, i32)>)
    ensures
        r == i32_pair_spec(s@),
{
    let a = match text::index_of_char(s, ',') {
        Some(a) => a,
        None => return None,
    };
    let n = s.len();
    assert(a < n);
    let first = text::slice_vec(s, 0, a);
    let second = text::slice_vec(s, a + 1, n);
    assert(first@ =~= s@.take(a as int));
    assert(second@ =~= s@.skip(a + 1));
    let x = match text::parse_i32(first.as_slice()) {
        Some(x) => x,
        None => return None,
    };
    let y = match text::parse_i32(second.as_slice()) {
        Some(y) => y,
        None => return None,
    };
    Some((x, y))
}

fn sat_sub(a: i32, b: i32) -> (r: i32)
    ensures
        r == sat_sub_i32(a, b),
{
    let d: i64 = (a as i64) - (b as i64);
    if d > i32::MAX as i64 {
        i32::MAX
    } else if d < i32::MIN as i64 {
        i32::MIN
    } else {
        d as i32
    }
}

#[verifier::rlimit(50)]
fn split_corners(value: &[char]) -> (r: Option<(Vec<char>, Vec<char>)>)
    ensures
        match corners_spec(value@) {
            Some((a, b)) => r matches Some((x, y)) && x@ == a && y@ == b,
            None => r is None,
        },
{
    if value.len() == 0 || value[0] != '[' {
        return None;
    }
    let inner = text::slice_vec(value, 1, value.len());
    assert(inner@ =~= value@.skip(1));
    let k = match text::find_first_lit(inner.as_slice(), "][") {
        Some(k) => k,
        None => return None,
    };
    proof {
        reveal_strlit("][");
    }
    let il = inner.len();
    assert(k + 2 <= il);
    let left_top = text::slice_vec(inner.as_slice(), 0, k);
    let rest = text::slice_vec(inner.as_slice(), k + 2, il);
    assert(left_top@ =~= inner@.take(k as int));
    assert(rest@ =~= inner@.skip(k + 2));
    if rest.len() == 0 || rest[rest.len() - 1] != ']' {
        return None;
    }
    let bottom_right = text::slice_vec(rest.as_slice(), 0, rest.len() - 1);
    assert(bottom_right@ =~= rest@.drop_last());
    Some((left_top, bottom_right))
}

pub fn parse_bounds(value: &[char]) -> (r: Option<Bounds>)
    ensures
        r == parse_bounds_spec(value@),
{
    let (left_top, bottom_right) = match split_corners(value) {
        Some(c) => c,
        None => return None,
    };
    let (x0, y0) = match split_i32_pair(left_top.as_slice()) {
        Some(p) => p,
        None => return None,
    };
    let (x1, y1) = match split_i32_pair(bottom_right.as_slice()) {
        Some(p) => p,
        None => return None,
    };
    let w = sat_sub(x1, x0);
    let h = sat_sub(y1, y0);
    if w < 0 || h < 0 {
        return None;
    }
    Some(Bounds { x: x0, y: y0, width: w as u32, height: h as u32 })
}

} // verus!

verus! {

/// One `<node>` of a UIAutomator dump.
#[derive(Debug, Clone, PartialEq, Eq)]
pub struct AndroidNode {
    pub text: Option<String>,
    pub content_desc: Option<String>,
    pub resource_id: Option<String>,
    pub class_name: Option<String>,
    pub package_name: Option<String>,
    pub bounds: Option<Bounds>,
    pub clickable: bool,
    pub enabled: bool,
    pub focusable: bool,
    pub focused: bool,
    pub scrollable: bool,
    pub checked: bool,
    pub selected: bool,
}

/// The bounds attribute, parsed.
pub open spec fn bounds_attr_spec(tag: Seq<char>) -> Option<Bounds> {
    match attr_spec(tag, "bounds"@) {
        Some(v) => parse_bounds_spec(v),
        None => None,
    }
}

/// A node is enabled unless its `enabled` attribute says otherwise.
pub open spec fn enabled_attr_spec(tag: Seq<char>) -> bool {
    match attr_spec(tag, "enabled"@) {
        Some(v) => v == "true"@,
        None => true,
    }
}

/// The node a tag's attributes describe.
#[verifier::opaque]
pub open spec fn node_from_tag(n: AndroidNode, tag: Seq<char>) -> bool {
    &&& crate::text::opt_view(n.text) == attr_spec(tag, "text"@)
    &&& crate::text::opt_view(n.content_desc) == attr_spec(tag, "content-desc"@)
    &&& crate::text::opt_view(n.resource_id) == attr_spec(tag, "resource-id"@)
    &&& crate::text::opt_view(n.class_name) == attr_spec(tag, "class"@)
    &&& crate::text::opt_view(n.package_name) == attr_spec(tag, "package"@)
    &&& n.bounds == bounds_attr_spec(tag)
    &&& n.clickable == bool_attr_spec(tag, "clickable"@)
    &&& n.enabled == enabled_attr_spec(tag)
    &&& n.focusable == bool_attr_spec(tag, "focusable"@)
    &&& n.focused == bool_attr_spec(tag, "focused"@)
    &&& n.scrollable == bool_attr_spec(tag, "scrollable"@)
    &&& n.checked == bool_attr_spec(tag, "checked"@)
    &&& n.selected == bool_attr_spec(tag, "selected"@)
}

/// `<node`.
pub open spec fn node_open() -> Seq<char> {
    seq!['<', 'n', 'o', 'd', 'e']
}

/// The attribute text of each `<node ...>` tag, in order: from each `<node`
/// to the next `>`; an unclosed tag ends the list.
#[verifier::opaque]
pub open spec fn node_tags(xml: Seq<char>) -> Seq<Seq<char>>
    decreases xml.len(),
{
    match text::first_index(xml, node_open()) {
        None => seq![],
        Some(i) => if 0 <= i && i + 5 <= xml.len() {
            let r = xml.skip(i + 5);
            match text::index_of(r, '>') {
                None => seq![],
                Some(e) => if 0 <= e < r.len() {
                    seq![r.take(e)] + node_tags(r.skip(e + 1))
                } else {
                    seq![]
                },
            }
        } else {
            seq![]
        },
    }
}

fn node_from(tag: &[char]) -> (n: AndroidNode)
    ensures
        node_from_tag(n, tag@),
{
    reveal(node_from_tag);
    let bounds = match attr(tag, "bounds") {
        Some(v) => {
            let c = text::chars_of(v.as_str());
            parse_bounds(c.as_slice())
        },
        None => None,
    };
    let enabled = match attr(tag, "enabled") {
        Some(v) => {
            let c = text::chars_of(v.as_str());
            text::is(c.as_slice(), "true")
        },
        None => true,
    };
    AndroidNode {
        text: attr(tag, "text"),
        content_desc: attr(tag, "content-desc"),
        resource_id: attr(tag, "resource-id"),
        class_name: attr(tag, "class"),
        package_name: attr(tag, "package"),
        bounds,
        clickable: bool_attr(tag, "clickable"),
        enabled,
        focusable: bool_attr(tag, "focusable"),
        focused: bool_attr(tag, "focused"),
        scrollable: bool_attr(tag, "scrollable"),
        checked: bool_attr(tag, "checked"),
        selected: bool_attr(tag, "selected"),
    }
}

proof fn lemma_node_tags_none(s: Seq<char>)
    requires
        text::first_index(s, node_open()) is None,
    ensures
        node_tags(s) == Seq::<Seq<char>>::empty(),
{
    reveal(node_tags);
}

proof fn lemma_node_tags_unclosed(s: Seq<char>, i: int)
    requires
        text::first_index(s, node_open()) == Some(i),
        0 <= i && i + 5 <= s.len(),
        text::index_of(s.skip(i + 5), '>') is None,
    ensures
        node_tags(s) == Seq::<Seq<char>>::empty(),
{
    reveal(node_tags);
}

#[verifier::rlimit(40)]
proof fn lemma_node_tags_step(s: Seq<char>, i: int, e: int)
    requires
        text::first_index(s, node_open()) == Some(i),
        0 <= i && i + 5 <= s.len(),
        text::index_of(s.skip(i + 5), '>') == Some(e),
        0 <= e < s.len() - i - 5,
    ensures
        node_tags(s) == seq![s.skip(i + 5).take(e)] + node_tags(s.skip(i + 5 + e + 1)),
{
    reveal(node_tags);
    assert(s.skip(i + 5).skip(e + 1) =~= s.skip(i + 5 + e + 1));
}

/// The first tag of the dump and how much of the text it takes up.
#[verifier::rlimit(80)]
fn next_tag(rest: &[char]) -> (r: Option<(Vec<char>, usize)>)
    ensures
        match r {
            Some((tag, used)) => 0 < used <= rest@.len() && node_tags(rest@) == seq![tag@] + node_tags(
                rest@.skip(used as int),
            ),
            None => node_tags(rest@) == Seq::<Seq<char>>::empty(),
        },
{
    proof {
        reveal_strlit("<node");
        assert("<node"@ =~= node_open());
    }
    let i = match text::find_first_lit(rest, "<node") {
        Some(i) => i,
        None => {
            proof {
                lemma_node_tags_none(rest@);
            }
            return None;
        },
    };
    let rl = rest.len();
    assert(i + 5 <= rl);
    let r2 = text::slice_vec(rest, i + 5, rl);
    assert(r2@ =~= rest@.skip(i + 5));
    let e = match text::index_of_char(r2.as_slice(), '>') {
        Some(e) => e,
        None => {
            proof {
                lemma_node_tags_unclosed(rest@, i as int);
            }
            return None;
        },
    };
    let tag = text::slice_vec(r2.as_slice(), 0, e);
    assert(tag@ =~= r2@.take(e as int));
    proof {
        lemma_node_tags_step(rest@, i as int, e as int);
    }
    Some((tag, i + 5 + e + 1))
}

/// The nodes of a UIAutomator dump, one per `<node ...>` tag, in order.
#[verifier::rlimit(80)]
pub fn parse_uiautomator_nodes(xml: &str) -> (r: Vec<AndroidNode>)
    ensures
        r@.len() == node_tags(xml@).len(),
        forall|i: int| 0 <= i < r@.len() ==> node_from_tag(#[trigger] r@[i], node_tags(xml@)[i]),
{
    let chars = text::chars_of(xml);
    let n = chars.len();
    let mut out: Vec<AndroidNode> = Vec::new();
    let mut pos: usize = 0;
    let ghost mut done: Seq<Seq<char>> = seq![];
    assert(chars@.skip(0) =~= chars@);
    loop
        invariant
            n == chars@.len(),
            pos <= n,
            node_tags(chars@) == done + node_tags(chars@.skip(pos as int)),
            out@.len() == done.len(),
            forall|k: int| 0 <= k < out@.len() ==> node_from_tag(#[trigger] out@[k], done[k]),
        ensures
            out@.len() == node_tags(chars@).len(),
            forall|k: int| 0 <= k < out@.len() ==> node_from_tag(#[trigger] out@[k], node_tags(chars@)[k]),
        decreases n - pos,
    {
        let rest = text::slice_vec(chars.as_slice(), pos, n);
        assert(rest@ =~= chars@.skip(pos as int));
        match next_tag(rest.as_slice()) {
            None => {
                assert(done + node_tags(chars@.skip(pos as int)) =~= done);
                break;
            },
            Some((tag, used)) => {
                let node = node_from(tag.as_slice());
                let ghost old_done = done;
                out.push(node);
                proof {
                    done = done.push(tag@);
                    assert(rest@.skip(used as int) =~= chars@.skip(pos + used));
                    assert(done + node_tags(chars@.skip(pos + used)) =~= old_done + node_tags(rest@));
                }
                pos = pos + used;
            },
        }
    }
    out
}

} // verus!

verus! {

/// `i32::saturating_add`.
pub open spec fn sat_add_i32(a: i32, b: i32) -> i32 {
    let s = a + b;
    if s > i32::MAX {
        i32::MAX
    } else if s < i32::MIN {
        i32::MIN
    } else {
        s as i32
    }
}

fn sat_add(a: i32, b: i32) -> (r: i32)
    ensures
        r == sat_add_i32(a, b),
{
    let s: i64 = (a as i64) + (b as i64);
    if s > i32::MAX as i64 {
        i32::MAX
    } else if s < i32::MIN as i64 {
        i32::MIN
    } else {
        s as i32
    }
}

/// A copy of an optional string.
pub fn opt_clone(o: &Option<String>) -> (r: Option<String>)
    ensures
        r == *o,
{
    match o {
        Some(s) => Some(s.clone()),
        None => None,
    }
}

impl AndroidNode {
    /// A node is on screen when it has a non-empty rectangle.
    pub open spec fn visible_spec(&self) -> bool {
        self.bounds matches Some(b) && b.width > 0 && b.height > 0
    }

    pub fn visible(&self) -> (r: bool)
        ensures
            r == self.visible_spec(),
    {
        match &self.bounds {
            Some(b) => b.width > 0 && b.height > 0,
            None => false,
        }
    }

    /// The middle of the node's rectangle (half width and height added to
    /// the corner, saturating).
    pub open spec fn center_spec(&self) -> Option<(i32, i32)> {
        match self.bounds {
            Some(b) => Some((sat_add_i32(b.x, (b.width / 2) as i32), sat_add_i32(b.y, (b.height / 2) as i32))),
            None => None,
        }
    }

    pub fn center(&self) -> (r: Option<(i32, i32)>)
        ensures
            r == self.center_spec(),
    {
        match &self.bounds {
            Some(b) => {
                let hw: i32 = (b.width / 2) as i32;
                let hh: i32 = (b.height / 2) as i32;
                Some((sat_add(b.x, hw), sat_add(b.y, hh)))
            },
            None => None,
        }
    }

    /// The text, else the description, else the resource id, else the class,
    /// else `android node`.
    pub open spec fn label_spec(&self) -> Seq<char> {
        match self.text {
            Some(t) => t@,
            None => match self.content_desc {
                Some(d) => d@,
                None => match self.resource_id {
                    Some(r) => r@,
                    None => match self.class_name {
                        Some(c) => c@,
                        None => "android node"@,
                    },
                },
            },
        }
    }

    pub fn label(&self) -> (r: String)
        ensures
            r@ == self.label_spec(),
    {
        match &self.text {
            Some(t) => t.clone(),
            None => match &self.content_desc {
                Some(d) => d.clone(),
                None => match &self.resource_id {
                    Some(r) => r.clone(),
                    None => match &self.class_name {
                        Some(c) => c.clone(),
                        None => owned("android node"),
                    },
                },
            },
        }
    }

    /// The package and the class, those that are present, in that order.
    pub open spec fn path_spec(&self) -> Seq<Seq<char>> {
        (match self.package_name {
            Some(p) => seq![p@],
            None => seq![],
        }) + match self.class_name {
            Some(c) => seq![c@],
            None => seq![],
        }
    }

    /// The element this node is, numbered by its place in the dump: it can
    /// be clicked when it is clickable or enabled.
    pub fn to_element(&self, index: usize, target: &TargetSelector) -> (e: ElementDescriptor)
        ensures
            e.id@ == "android-node-"@ + decimal(index as nat),
            e.role@ == match self.class_name {
                Some(c) => c@,
                None => "android_node"@,
            },
            e.name@ == self.label_spec(),
            e.description == self.content_desc,
            e.value == self.resource_id,
            e.bounds == self.bounds,
            e.target == Some(*target),
            text::strings_view(e.path@) == self.path_spec(),
            text::strings_view(e.actions@) == if self.clickable || self.enabled {
                seq!["click"@]
            } else {
                Seq::<Seq<char>>::empty()
            },
            e.app_name == self.package_name,
            e.process_id is None,
    {
        let mut actions: Vec<String> = Vec::new();
        if self.clickable || self.enabled {
            actions.push(owned("click"));
        }
        let mut path: Vec<String> = Vec::new();
        match &self.package_name {
            Some(p) => path.push(p.clone()),
            None => {},
        }
        match &self.class_name {
            Some(c) => path.push(c.clone()),
            None => {},
        }
        let mut id = owned("android-node-");
        text::push_str(&mut id, text::format_u64(index as u64).as_str());
        let role = match &self.class_name {
            Some(c) => c.clone(),
            None => owned("android_node"),
        };
        assert(text::strings_view(path@) =~= self.path_spec());
        assert(text::strings_view(actions@) =~= if self.clickable || self.enabled {
            seq!["click"@]
        } else {
            Seq::<Seq<char>>::empty()
        });
        ElementDescriptor {
            id,
            role,
            name: self.label(),
            description: opt_clone(&self.content_desc),
            value: opt_clone(&self.resource_id),
            bounds: self.bounds,
            target: Some(target.duplicate()),
            path,
            actions,
            app_name: opt_clone(&self.package_name),
            process_id: None,
        }
    }
}

// ---------------------------------------------------------------------------
// Screen size
// ---------------------------------------------------------------------------

/// The first line that contains `p`.
pub open spec fn first_line_containing(ls: Seq<Seq<char>>, p: Seq<char>) -> Option<Seq<char>>
    decreases ls.len(),
{
    if ls.len() == 0 {
        None
    } else if text::contains(ls[0], p) {
        Some(ls[0])
    } else {
        first_line_containing(ls.drop_first(), p)
    }
}

fn find_line_containing(ls: &Vec<String>, p: &str) -> (r: Option<usize>)
    ensures
        match first_line_containing(text::strings_view(ls@), p@) {
            Some(l) => r matches Some(i) && i < ls@.len() && ls@[i as int]@ == l,
            None => r is None,
        },
{
    let ghost v = text::strings_view(ls@);
    let mut i: usize = 0;
    assert(v.skip(0) =~= v);
    while i < ls.len()
        invariant
            v == text::strings_view(ls@),
            i <= ls@.len(),
            first_line_containing(v, p@) == first_line_containing(v.skip(i as int), p@),
        decreases ls.len() - i,
    {
        let c = text::chars_of(ls[i].as_str());
        proof {
            assert(v.skip(i as int)[0] == ls@[i as int]@);
            assert(v.skip(i as int).drop_first() =~= v.skip(i + 1));
        }
        if text::contains_lit(c.as_slice(), p) {
            return Some(i);
        }
        i += 1;
    }
    assert(v.skip(i as int).len() == 0);
    None
}

/// The text after the last `c`, or all of it.
pub open spec fn after_last(s: Seq<char>, c: char) -> Seq<char>
    decreases s.len(),
{
    if s.len() == 0 {
        s
    } else if s.last() == c {
        seq![]
    } else {
        after_last(s.drop_last(), c).push(s.last())
    }
}

fn after_last_char(s: &[char], c: char) -> (r: Vec<char>)
    ensures
        r@ == after_last(s@, c),
{
    let mut j: usize = s.len();
    assert(s@.take(j as int) =~= s@);
    assert(s@.skip(j as int) =~= Seq::<char>::empty());
    while j > 0 && s[j - 1] != c
        invariant
            j <= s@.len(),
            after_last(s@, c) == after_last(s@.take(j as int), c) + s@.skip(j as int),
        decreases j,
    {
        proof {
            assert(s@.take(j as int).drop_last() =~= s@.take(j - 1));
            assert(s@.take(j as int).last() == s@[j - 1]);
            assert(s@.skip(j - 1) =~= seq![s@[j - 1]] + s@.skip(j as int));
            assert(after_last(s@.take(j - 1), c).push(s@[j - 1]) + s@.skip(j as int) =~= after_last(
                s@.take(j - 1),
                c,
            ) + s@.skip(j - 1));
        }
        j -= 1;
    }
    if j > 0 {
        assert(s@.take(j as int).last() == c);
    } else {
        assert(s@.take(0) =~= Seq::<char>::empty());
    }
    text::slice_vec(s, j, s.len())
}

/// The size `wm size` reports: the line with `Physical size:`, else the
/// first line with an `x`; after its last `:`, `WIDTHxHEIGHT`.
pub open spec fn parse_wm_size_spec(output: Seq<char>) -> Option<Bounds> {
    let ls = text::lines(output);
    let line = match first_line_containing(ls, "Physical size:"@) {
        Some(l) => Some(l),
        None => first_line_containing(ls, "x"@),
    };
    match line {
        None => None,
        Some(l) => {
            let size = trim(after_last(l, ':'));
            match text::index_of(size, 'x') {
                None => None,
                Some(k) => match (text::parse_u32_spec(trim(size.take(k))), text::parse_u32_spec(trim(size.skip(k + 1)))) {
                    (Some(w), Some(h)) => Some(Bounds { x: 0, y: 0, width: w, height: h }),
                    _ => None,
                },
            }
        },
    }
}

pub fn parse_wm_size(output: &str) -> (r: Option<Bounds>)
    ensures
        r == parse_wm_size_spec(output@),
{
    let ls = text::text_lines(output);
    let idx = match find_line_containing(&ls, "Physical size:") {
        Some(i) => i,
        None => match find_line_containing(&ls, "x") {
            Some(i) => i,
            None => return None,
        },
    };
    let line = text::chars_of(ls[idx].as_str());
    let tail = after_last_char(line.as_slice(), ':');
    let size = text::trimmed(tail.as_slice());
    let k = match text::index_of_char(size.as_slice(), 'x') {
        Some(k) => k,
        None => return None,
    };
    let sl = size.len();
    let w_text = text::trimmed(text::slice_vec(size.as_slice(), 0, k).as_slice());
    let h_text = text::trimmed(text::slice_vec(size.as_slice(), k + 1, sl).as_slice());
    proof {
        assert(size@.subrange(0, k as int) =~= size@.take(k as int));
        assert(size@.subrange(k + 1, sl as int) =~= size@.skip(k + 1));
    }
    let w = match text::parse_u32(w_text.as_slice()) {
        Some(w) => w,
        None => return None,
    };
    let h = match text::parse_u32(h_text.as_slice()) {
        Some(h) => h,
        None => return None,
    };
    Some(Bounds { x: 0, y: 0, width: w, height: h })
}

} // verus!

verus! {

// ---------------------------------------------------------------------------
// Finding nodes
// ---------------------------------------------------------------------------

/// The index an `android-node-N` element id names.
pub open spec fn element_id_index(id: Seq<char>) -> Option<usize> {
    if text::starts_with(id, "android-node-"@) {
        text::parse_usize_spec(id.skip(13))
    } else {
        None
    }
}

/// Whether the node's text, description or resource id is exactly `id`.
pub open spec fn names_node(n: AndroidNode, id: Seq<char>) -> bool {
    crate::text::opt_view(n.text) == Some(id) || crate::text::opt_view(n.content_desc) == Some(id)
        || crate::text::opt_view(n.resource_id) == Some(id)
}

pub open spec fn named_at(nodes: Seq<AndroidNode>, id: Seq<char>, i: int) -> bool {
    0 <= i < nodes.len() && names_node(nodes[i], id)
}

/// The first node the id names.
pub open spec fn first_named(nodes: Seq<AndroidNode>, id: Seq<char>) -> Option<int> {
    if exists|i: int| named_at(nodes, id, i) {
        Some(choose|i: int| named_at(nodes, id, i) && forall|j: int| 0 <= j < i ==> !named_at(nodes, id, j))
    } else {
        None
    }
}

/// The node an element id picks: `android-node-N` picks the node at N (none
/// when there is no such node), any other id the first node it names.
pub open spec fn element_node_spec(nodes: Seq<AndroidNode>, id: Seq<char>) -> Option<int> {
    match element_id_index(id) {
        Some(i) => if i < nodes.len() {
            Some(i as int)
        } else {
            None
        },
        None => first_named(nodes, id),
    }
}

/// Whether an optional string is exactly the given text.
fn opt_is(o: &Option<String>, v: &[char]) -> (r: bool)
    ensures
        r == (crate::text::opt_view(*o) == Some(v@)),
{
    match o {
        Some(s) => {
            let c = text::chars_of(s.as_str());
            text::same(c.as_slice(), v)
        },
        None => false,
    }
}

pub fn find_node_for_element_id(nodes: &Vec<AndroidNode>, id: &str) -> (r: Option<usize>)
    ensures
        r matches Some(i) ==> i < nodes@.len(),
        match element_node_spec(nodes@, id@) {
            Some(i) => r == Some(i as usize) && 0 <= i < nodes@.len(),
            None => r is None,
        },
{
    let chars = text::chars_of(id);
    proof {
        reveal_strlit("android-node-");
    }
    if text::starts_with_lit(chars.as_slice(), "android-node-") {
        let rest = text::slice_vec(chars.as_slice(), 13, chars.len());
        assert(rest@ =~= id@.skip(13));
        match text::parse_usize(rest.as_slice()) {
            Some(i) => {
                return if i < nodes.len() {
                    Some(i)
                } else {
                    None
                };
            },
            None => {},
        }
    }
    let mut i: usize = 0;
    while i < nodes.len()
        invariant
            chars@ == id@,
            element_id_index(id@) is None,
            i <= nodes@.len(),
            forall|j: int| 0 <= j < i ==> !named_at(nodes@, id@, j),
        decreases nodes.len() - i,
    {
        let n = &nodes[i];
        if opt_is(&n.text, chars.as_slice()) || opt_is(&n.content_desc, chars.as_slice()) || opt_is(
            &n.resource_id,
            chars.as_slice(),
        ) {
            proof {
                assert(named_at(nodes@, id@, i as int));
                let k = choose|k: int| named_at(nodes@, id@, k) && forall|j: int| 0 <= j < k ==> !named_at(nodes@, id@, j);
                assert(k == i);
            }
            return Some(i);
        }
        i += 1;
    }
    None
}

/// A text without the `"` characters at either end.
pub open spec fn strip_leading_quotes(s: Seq<char>) -> Seq<char>
    decreases s.len(),
{
    if s.len() > 0 && s[0] == '"' {
        strip_leading_quotes(s.drop_first())
    } else {
        s
    }
}

pub open spec fn strip_trailing_quotes(s: Seq<char>) -> Seq<char>
    decreases s.len(),
{
    if s.len() > 0 && s.last() == '"' {
        strip_trailing_quotes(s.drop_last())
    } else {
        s
    }
}

pub open spec fn strip_quotes(s: Seq<char>) -> Seq<char> {
    strip_trailing_quotes(strip_leading_quotes(s))
}

fn strip_quotes_exec(s: &[char]) -> (r: Vec<char>)
    ensures
        r@ == strip_quotes(s@),
{
    let mut a: usize = 0;
    assert(s@.skip(0) =~= s@);
    while a < s.len() && s[a] == '"'
        invariant
            a <= s@.len(),
            strip_leading_quotes(s@) == strip_leading_quotes(s@.skip(a as int)),
        decreases s.len() - a,
    {
        assert(s@.skip(a as int).drop_first() =~= s@.skip(a + 1));
        a += 1;
    }
    let lead = text::slice_vec(s, a, s.len());
    assert(lead@ =~= s@.skip(a as int));
    let mut b: usize = lead.len();
    assert(lead@.take(b as int) =~= lead@);
    while b > 0 && lead[b - 1] == '"'
        invariant
            b <= lead@.len(),
            strip_trailing_quotes(lead@) == strip_trailing_quotes(lead@.take(b as int)),
        decreases b,
    {
        assert(lead@.take(b as int).drop_last() =~= lead@.take(b - 1));
        b -= 1;
    }
    text::slice_vec(lead.as_slice(), 0, b)
}

/// The field and the value of a selector: `FIELD=VALUE` or `FIELD:VALUE`
/// (the field trimmed, the value trimmed and unquoted), else `any` and the
/// whole trimmed selector.
pub open spec fn selector_parts(selector: Seq<char>) -> (Seq<char>, Seq<char>) {
    let s = trim(selector);
    match text::index_of(s, '=') {
        Some(k) => (trim(s.take(k)), strip_quotes(trim(s.skip(k + 1)))),
        None => match text::index_of(s, ':') {
            Some(k) => (trim(s.take(k)), strip_quotes(trim(s.skip(k + 1)))),
            None => ("any"@, s),
        },
    }
}

/// Whether a node matches a selector field and value: text, description,
/// resource id, class (by suffix), package, or any of the first four.
pub open spec fn selector_matches(n: AndroidNode, field: Seq<char>, value: Seq<char>) -> bool {
    if field == "text"@ || field == "label"@ {
        crate::text::opt_view(n.text) == Some(value)
    } else if field == "desc"@ || field == "content-desc"@ || field == "content_desc"@ || field == "description"@ {
        crate::text::opt_view(n.content_desc) == Some(value)
    } else if field == "id"@ || field == "resource"@ || field == "resource-id"@ || field == "resource_id"@ {
        crate::text::opt_view(n.resource_id) == Some(value)
    } else if field == "class"@ || field == "role"@ {
        n.class_name matches Some(c) && (text::ends_with(c@, value) || c@ == value)
    } else if field == "package"@ || field == "app"@ {
        crate::text::opt_view(n.package_name) == Some(value)
    } else if field == "any"@ {
        crate::text::opt_view(n.text) == Some(value) || crate::text::opt_view(n.content_desc) == Some(
            value,
        ) || crate::text::opt_view(n.resource_id) == Some(value) || crate::text::opt_view(n.class_name)
            == Some(value)
    } else {
        false
    }
}

pub open spec fn selected_at(nodes: Seq<AndroidNode>, field: Seq<char>, value: Seq<char>, i: int) -> bool {
    0 <= i < nodes.len() && selector_matches(nodes[i], field, value)
}

/// The first node a field and value select.
pub open spec fn first_selected(nodes: Seq<AndroidNode>, field: Seq<char>, value: Seq<char>) -> Option<int> {
    if exists|i: int| selected_at(nodes, field, value, i) {
        Some(
            choose|i: int|
                selected_at(nodes, field, value, i) && forall|j: int| 0 <= j < i ==> !selected_at(nodes, field, value, j),
        )
    } else {
        None
    }
}

/// The node a selector picks: the node its element id picks, else the
/// first node its field and value select.
pub open spec fn selector_node_spec(nodes: Seq<AndroidNode>, selector: Seq<char>) -> Option<int> {
    match element_node_spec(nodes, selector) {
        Some(i) => Some(i),
        None => {
            let (field, value) = selector_parts(selector);
            first_selected(nodes, field, value)
        },
    }
}

/// An element id that is not a node index picks the first node whose text,
/// description or resource id it is: that node is named by it, no node
/// before it is, and no node is picked exactly when no node is named.
pub proof fn law_element_id_picks_first_named(nodes: Seq<AndroidNode>, id: Seq<char>)
    requires
        element_id_index(id) is None,
    ensures
        element_node_spec(nodes, id) matches Some(i) ==> {
            &&& named_at(nodes, id, i)
            &&& forall|j: int| 0 <= j < i ==> !#[trigger] named_at(nodes, id, j)
        },
        element_node_spec(nodes, id) is None <==> forall|i: int| !#[trigger] named_at(nodes, id, i),
{
    if exists|i: int| named_at(nodes, id, i) {
        let w = choose|i: int| named_at(nodes, id, i);
        lemma_first_named_from(nodes, id, 0, w);
    }
}

proof fn lemma_first_named_from(nodes: Seq<AndroidNode>, id: Seq<char>, k: int, w: int)
    requires
        0 <= k <= w,
        named_at(nodes, id, w),
        forall|j: int| 0 <= j < k ==> !named_at(nodes, id, j),
    ensures
        exists|i: int| named_at(nodes, id, i) && forall|j: int| 0 <= j < i ==> !named_at(nodes, id, j),
    decreases w - k,
{
    if named_at(nodes, id, k) {
        assert(named_at(nodes, id, k) && forall|j: int| 0 <= j < k ==> !named_at(nodes, id, j));
    } else {
        lemma_first_named_from(nodes, id, k + 1, w);
    }
}

/// When a selector names no element id, the node it picks is the first node
/// its field and value select: that node is selected, no node before it is,
/// and no node is picked exactly when no node is selected.
pub proof fn law_selector_picks_first_match(nodes: Seq<AndroidNode>, selector: Seq<char>)
    requires
        element_node_spec(nodes, selector) is None,
    ensures
        ({
            let (field, value) = selector_parts(selector);
            &&& selector_node_spec(nodes, selector) matches Some(i) ==> {
                &&& selected_at(nodes, field, value, i)
                &&& forall|j: int| 0 <= j < i ==> !#[trigger] selected_at(nodes, field, value, j)
            }
            &&& selector_node_spec(nodes, selector) is None <==> forall|i: int| !#[trigger] selected_at(nodes, field, value, i)
        }),
{
    let (field, value) = selector_parts(selector);
    if exists|i: int| selected_at(nodes, field, value, i) {
        lemma_first_selected_exists(nodes, field, value);
    }
}

proof fn lemma_first_selected_exists(nodes: Seq<AndroidNode>, field: Seq<char>, value: Seq<char>)
    requires
        exists|i: int| selected_at(nodes, field, value, i),
    ensures
        exists|i: int|
            selected_at(nodes, field, value, i) && forall|j: int| 0 <= j < i ==> !selected_at(nodes, field, value, j),
{
    let w = choose|i: int| selected_at(nodes, field, value, i);
    lemma_first_selected_from(nodes, field, value, 0, w);
}

proof fn lemma_first_selected_from(nodes: Seq<AndroidNode>, field: Seq<char>, value: Seq<char>, k: int, w: int)
    requires
        0 <= k <= w,
        selected_at(nodes, field, value, w),
        forall|j: int| 0 <= j < k ==> !selected_at(nodes, field, value, j),
    ensures
        exists|i: int|
            selected_at(nodes, field, value, i) && forall|j: int| 0 <= j < i ==> !selected_at(nodes, field, value, j),
    decreases w - k,
{
    if selected_at(nodes, field, value, k) {
        assert(selected_at(nodes, field, value, k) && forall|j: int| 0 <= j < k ==> !selected_at(nodes, field, value, j));
    } else {
        lemma_first_selected_from(nodes, field, value, k + 1, w);
    }
}

fn split_selector(selector: &[char]) -> (r: (Vec<char>, Vec<char>))
    ensures
        selector_parts(selector@) == (r.0@, r.1@),
{
    let s = text::trimmed(selector);
    let sl = s.len();
    let k = match text::index_of_char(s.as_slice(), '=') {
        Some(k) => k,
        None => match text::index_of_char(s.as_slice(), ':') {
            Some(k) => k,
            None => {
                proof {
                    reveal_strlit("any");
                }
                return (text::chars_of("any"), s);
            },
        },
    };
    let head = text::slice_vec(s.as_slice(), 0, k);
    let tail = text::slice_vec(s.as_slice(), k + 1, sl);
    assert(head@ =~= s@.take(k as int));
    assert(tail@ =~= s@.skip(k + 1));
    let field = text::trimmed(head.as_slice());
    let value = strip_quotes_exec(text::trimmed(tail.as_slice()).as_slice());
    (field, value)
}

fn ends_with_chars(s: &[char], p: &[char]) -> (r: bool)
    ensures
        r == text::ends_with(s@, p@),
{
    if p.len() > s.len() {
        return false;
    }
    text::matches_at(s, p, s.len() - p.len())
}

fn node_selected(n: &AndroidNode, field: &[char], value: &[char]) -> (r: bool)
    ensures
        r == selector_matches(*n, field@, value@),
{
    if text::is(field, "text") || text::is(field, "label") {
        opt_is(&n.text, value)
    } else if text::is(field, "desc") || text::is(field, "content-desc") || text::is(field, "content_desc")
        || text::is(field, "description") {
        opt_is(&n.content_desc, value)
    } else if text::is(field, "id") || text::is(field, "resource") || text::is(field, "resource-id") || text::is(
        field,
        "resource_id",
    ) {
        opt_is(&n.resource_id, value)
    } else if text::is(field, "class") || text::is(field, "role") {
        match &n.class_name {
            Some(c) => {
                let cc = text::chars_of(c.as_str());
                ends_with_chars(cc.as_slice(), value) || text::same(cc.as_slice(), value)
            },
            None => false,
        }
    } else if text::is(field, "package") || text::is(field, "app") {
        opt_is(&n.package_name, value)
    } else if text::is(field, "any") {
        opt_is(&n.text, value) || opt_is(&n.content_desc, value) || opt_is(&n.resource_id, value) || opt_is(
            &n.class_name,
            value,
        )
    } else {
        false
    }
}

/// The node a selector picks, by its index.
pub fn find_node_for_selector(nodes: &Vec<AndroidNode>, selector: &str) -> (r: Option<usize>)
    ensures
        r matches Some(i) ==> i < nodes@.len(),
        match selector_node_spec(nodes@, selector@) {
            Some(i) => r == Some(i as usize) && 0 <= i < nodes@.len(),
            None => r is None,
        },
{
    match find_node_for_element_id(nodes, selector) {
        Some(i) => return Some(i),
        None => {},
    }
    let chars = text::chars_of(selector);
    let (field, value) = split_selector(chars.as_slice());
    let mut i: usize = 0;
    while i < nodes.len()
        invariant
            element_node_spec(nodes@, selector@) is None,
            selector_parts(selector@) == (field@, value@),
            i <= nodes@.len(),
            forall|j: int| 0 <= j < i ==> !selected_at(nodes@, field@, value@, j),
        decreases nodes.len() - i,
    {
        if node_selected(&nodes[i], field.as_slice(), value.as_slice()) {
            proof {
                assert(selected_at(nodes@, field@, value@, i as int));
                let k = choose|k: int|
                    selected_at(nodes@, field@, value@, k) && forall|j: int|
                        0 <= j < k ==> !selected_at(nodes@, field@, value@, j);
                assert(k == i);
            }
            return Some(i);
        }
        i += 1;
    }
    None
}

} // verus!

verus! {

// ---------------------------------------------------------------------------
// Components in `dumpsys` and package query lines
// ---------------------------------------------------------------------------

/// A line with brackets, braces, `cmp=`, `ComponentInfo` and
/// `ActivityRecord` each turned into a space.
pub open spec fn cleaned(s: Seq<char>) -> Seq<char>
    decreases s.len(),
{
    if s.len() == 0 {
        seq![]
    } else if s[0] == '{' || s[0] == '}' || s[0] == '[' || s[0] == ']' {
        seq![' '] + cleaned(s.drop_first())
    } else if s.len() >= 4 && text::starts_with(s, "cmp="@) {
        seq![' '] + cleaned(s.skip(4))
    } else if s.len() >= 13 && text::starts_with(s, "ComponentInfo"@) {
        seq![' '] + cleaned(s.skip(13))
    } else if s.len() >= 14 && text::starts_with(s, "ActivityRecord"@) {
        seq![' '] + cleaned(s.skip(14))
    } else {
        seq![s[0]] + cleaned(s.drop_first())
    }
}

fn clean_line(s: &[char]) -> (r: Vec<char>)
    ensures
        r@ == cleaned(s@),
{
    let mut out: Vec<char> = Vec::new();
    let mut i: usize = 0;
    assert(s@.skip(0) =~= s@);
    while i < s.len()
        invariant
            i <= s@.len(),
            out@ + cleaned(s@.skip(i as int)) == cleaned(s@),
        decreases s.len() - i,
    {
        proof {
            reveal_strlit("cmp=");
            reveal_strlit("ComponentInfo");
            reveal_strlit("ActivityRecord");
        }
        let ghost rest = s@.skip(i as int);
        let c = s[i];
        let mut k: usize = 1;
        let mut d: char = c;
        if c == '{' || c == '}' || c == '[' || c == ']' {
            d = ' ';
        } else if lit_at(s, "cmp=", i) {
            d = ' ';
            k = 4;
        } else if lit_at(s, "ComponentInfo", i) {
            d = ' ';
            k = 13;
        } else if lit_at(s, "ActivityRecord", i) {
            d = ' ';
            k = 14;
        }
        proof {
            assert(rest[0] == c);
            assert(i + k <= s@.len());
            assert(rest.skip(k as int) =~= s@.skip(i + k));
            assert(rest.drop_first() =~= s@.skip(i + 1));
            assert(cleaned(rest) == seq![d] + cleaned(rest.skip(k as int)));
        }
        out.push(d);
        assert(out@ + cleaned(s@.skip(i + k)) =~= cleaned(s@));
        i += k;
    }
    assert(s@.skip(i as int) =~= Seq::<char>::empty());
    assert(out@ =~= cleaned(s@));
    out
}

/// Whether a character ends a field of a cleaned line.
pub open spec fn is_field_sep(c: char) -> bool {
    text::is_ws(c) || c == ','
}

/// The characters trimmed off a component's ends.
pub open spec fn is_edge_punct(c: char) -> bool {
    c == ':' || c == ';' || c == ')' || c == '('
}

pub open spec fn strip_leading_punct(s: Seq<char>) -> Seq<char>
    decreases s.len(),
{
    if s.len() > 0 && is_edge_punct(s[0]) {
        strip_leading_punct(s.drop_first())
    } else {
        s
    }
}

pub open spec fn strip_trailing_punct(s: Seq<char>) -> Seq<char>
    decreases s.len(),
{
    if s.len() > 0 && is_edge_punct(s.last()) {
        strip_trailing_punct(s.drop_last())
    } else {
        s
    }
}

pub open spec fn strip_leading_dots(s: Seq<char>) -> Seq<char>
    decreases s.len(),
{
    if s.len() > 0 && s[0] == '.' {
        strip_leading_dots(s.drop_first())
    } else {
        s
    }
}

/// The package and activity a field names: with `:;()` trimmed from its
/// ends and everything up to its last `=` dropped, `PACKAGE/ACTIVITY`
/// where the package looks like one; the activity loses its leading dots
/// and is absent when empty.
pub open spec fn component_of(f: Seq<char>) -> Option<(Seq<char>, Option<Seq<char>>)> {
    let p = after_last(strip_trailing_punct(strip_leading_punct(f)), '=');
    match text::index_of(p, '/') {
        None => None,
        Some(k) => {
            let package = p.take(k);
            let activity = p.skip(k + 1);
            if !looks_like_package_spec(package) {
                None
            } else {
                Some(
                    (
                        package,
                        if activity.len() == 0 {
                            None
                        } else {
                            Some(strip_leading_dots(activity))
                        },
                    ),
                )
            }
        },
    }
}

/// What a field yields: fields without a `/`, or that start with `http`,
/// yield nothing.
pub open spec fn field_component(f: Seq<char>) -> Option<(Seq<char>, Option<Seq<char>>)> {
    if text::has_char(f, '/') && !text::starts_with(f, "http"@) {
        component_of(f)
    } else {
        None
    }
}

/// The first component among the fields of `s`, the field being read being
/// `cur`.
pub open spec fn scan_fields(s: Seq<char>, cur: Seq<char>) -> Option<(Seq<char>, Option<Seq<char>>)>
    decreases s.len(),
{
    if s.len() == 0 {
        field_component(cur)
    } else if is_field_sep(s[0]) {
        match field_component(cur) {
            Some(x) => Some(x),
            None => scan_fields(s.drop_first(), seq![]),
        }
    } else {
        scan_fields(s.drop_first(), cur.push(s[0]))
    }
}

/// The package and activity a `dumpsys` or package query line names: the
/// first field of the cleaned line, split at whitespace and commas, that
/// names a component.
pub open spec fn component_spec(line: Seq<char>) -> Option<(Seq<char>, Option<Seq<char>>)> {
    scan_fields(cleaned(line), seq![])
}

fn strip_punct(s: &[char]) -> (r: Vec<char>)
    ensures
        r@ == strip_trailing_punct(strip_leading_punct(s@)),
{
    let mut a: usize = 0;
    assert(s@.skip(0) =~= s@);
    while a < s.len() && (s[a] == ':' || s[a] == ';' || s[a] == ')' || s[a] == '(')
        invariant
            a <= s@.len(),
            strip_leading_punct(s@) == strip_leading_punct(s@.skip(a as int)),
        decreases s.len() - a,
    {
        assert(s@.skip(a as int).drop_first() =~= s@.skip(a + 1));
        a += 1;
    }
    let lead = text::slice_vec(s, a, s.len());
    assert(lead@ =~= s@.skip(a as int));
    let mut b: usize = lead.len();
    assert(lead@.take(b as int) =~= lead@);
    while b > 0 && (lead[b - 1] == ':' || lead[b - 1] == ';' || lead[b - 1] == ')' || lead[b - 1] == '(')
        invariant
            b <= lead@.len(),
            strip_trailing_punct(lead@) == strip_trailing_punct(lead@.take(b as int)),
        decreases b,
    {
        assert(lead@.take(b as int).drop_last() =~= lead@.take(b - 1));
        b -= 1;
    }
    text::slice_vec(lead.as_slice(), 0, b)
}

fn strip_dots(s: &[char]) -> (r: Vec<char>)
    ensures
        r@ == strip_leading_dots(s@),
{
    let mut a: usize = 0;
    assert(s@.skip(0) =~= s@);
    while a < s.len() && s[a] == '.'
        invariant
            a <= s@.len(),
            strip_leading_dots(s@) == strip_leading_dots(s@.skip(a as int)),
        decreases s.len() - a,
    {
        assert(s@.skip(a as int).drop_first() =~= s@.skip(a + 1));
        a += 1;
    }
    let r = text::slice_vec(s, a, s.len());
    assert(r@ =~= s@.skip(a as int));
    r
}

fn component_in(f: &[char]) -> (r: Option<(String, Option<String>)>)
    ensures
        match component_of(f@) {
            Some((p, a)) => r matches Some((rp, ra)) && rp@ == p && crate::text::opt_view(ra) == a,
            None => r is None,
        },
{
    let stripped = strip_punct(f);
    let p = after_last_char(stripped.as_slice(), '=');
    let k = match text::index_of_char(p.as_slice(), '/') {
        Some(k) => k,
        None => return None,
    };
    let pl = p.len();
    let package = text::slice_vec(p.as_slice(), 0, k);
    let activity = text::slice_vec(p.as_slice(), k + 1, pl);
    assert(package@ =~= p@.take(k as int));
    assert(activity@ =~= p@.skip(k + 1));
    if !looks_like_package(package.as_slice()) {
        return None;
    }
    let act = if activity.len() == 0 {
        None
    } else {
        Some(text::string_of(strip_dots(activity.as_slice()).as_slice()))
    };
    Some((text::string_of(package.as_slice()), act))
}

fn field_component_exec(f: &[char]) -> (r: Option<(String, Option<String>)>)
    ensures
        match field_component(f@) {
            Some((p, a)) => r matches Some((rp, ra)) && rp@ == p && crate::text::opt_view(ra) == a,
            None => r is None,
        },
{
    if text::contains_char(f, '/') && !text::starts_with_lit(f, "http") {
        component_in(f)
    } else {
        None
    }
}

pub fn parse_component_from_line(line: &str) -> (r: Option<(String, Option<String>)>)
    ensures
        match component_spec(line@) {
            Some((p, a)) => r matches Some((rp, ra)) && rp@ == p && crate::text::opt_view(ra) == a,
            None => r is None,
        },
{
    let chars = text::chars_of(line);
    let c = clean_line(chars.as_slice());
    let mut cur: Vec<char> = Vec::new();
    let mut i: usize = 0;
    assert(c@.skip(0) =~= c@);
    while i < c.len()
        invariant
            i <= c@.len(),
            component_spec(line@) == scan_fields(c@.skip(i as int), cur@),
        decreases c.len() - i,
    {
        let ch = c[i];
        proof {
            assert(c@.skip(i as int)[0] == ch);
            assert(c@.skip(i as int).drop_first() =~= c@.skip(i + 1));
        }
        if text::is_whitespace(ch) || ch == ',' {
            let found = field_component_exec(cur.as_slice());
            if found.is_some() {
                return found;
            }
            cur = Vec::new();
            assert(cur@ =~= Seq::<char>::empty());
        } else {
            cur.push(ch);
        }
        i += 1;
    }
    assert(c@.skip(i as int) =~= Seq::<char>::empty());
    field_component_exec(cur.as_slice())
}

pub fn looks_like_package_str(value: &str) -> (r: bool)
    ensures
        r == looks_like_package_spec(value@),
{
    let c = text::chars_of(value);
    looks_like_package(c.as_slice())
}

} // verus!

verus! {

// ---------------------------------------------------------------------------
// Apps
// ---------------------------------------------------------------------------

impl AndroidAppSummary {
    /// A copy of this summary.
    pub fn duplicate(&self) -> (r: Self)
        ensures
            r == *self,
    {
        AndroidAppSummary {
            package: self.package.clone(),
            activity: opt_clone(&self.activity),
            label: opt_clone(&self.label),
            state: self.state,
        }
    }
}

/// Whether an app is the package and activity of a component, found in the
/// given place.
pub open spec fn app_is(a: AndroidAppSummary, c: (Seq<char>, Option<Seq<char>>), state: AndroidAppState) -> bool {
    &&& a.package@ == c.0
    &&& crate::text::opt_view(a.activity) == c.1
    &&& a.label is None
    &&& a.state == state
}

/// Whether the apps are, one for one, the components, found in the given
/// place.
pub open spec fn apps_are(apps: Seq<AndroidAppSummary>, cs: Seq<(Seq<char>, Option<Seq<char>>)>, state: AndroidAppState) -> bool {
    &&& apps.len() == cs.len()
    &&& forall|i: int| 0 <= i < apps.len() ==> app_is(#[trigger] apps[i], cs[i], state)
}

pub open spec fn has_package(cs: Seq<(Seq<char>, Option<Seq<char>>)>, p: Seq<char>) -> bool {
    exists|j: int| 0 <= j < cs.len() && (#[trigger] cs[j]).0 == p
}

/// The components with each package kept at its first appearance only.
pub open spec fn dedupe_components(cs: Seq<(Seq<char>, Option<Seq<char>>)>) -> Seq<(Seq<char>, Option<Seq<char>>)>
    decreases cs.len(),
{
    if cs.len() == 0 {
        seq![]
    } else if has_package(cs.drop_last(), cs.last().0) {
        dedupe_components(cs.drop_last())
    } else {
        dedupe_components(cs.drop_last()).push(cs.last())
    }
}

proof fn lemma_has_package_push(
    cs: Seq<(Seq<char>, Option<Seq<char>>)>,
    x: (Seq<char>, Option<Seq<char>>),
    p: Seq<char>,
)
    ensures
        has_package(cs.push(x), p) == (has_package(cs, p) || x.0 == p),
{
    if has_package(cs.push(x), p) {
        let j = choose|j: int| 0 <= j < cs.push(x).len() && (#[trigger] cs.push(x)[j]).0 == p;
        if j < cs.len() {
            assert(cs[j].0 == p);
        }
    }
    if has_package(cs, p) {
        let j = choose|j: int| 0 <= j < cs.len() && (#[trigger] cs[j]).0 == p;
        assert(cs.push(x)[j].0 == p);
    }
    if x.0 == p {
        assert(cs.push(x)[cs.len() as int].0 == p);
    }
}

proof fn lemma_dedupe_components_packages(cs: Seq<(Seq<char>, Option<Seq<char>>)>, p: Seq<char>)
    ensures
        has_package(dedupe_components(cs), p) == has_package(cs, p),
    decreases cs.len(),
{
    if cs.len() > 0 {
        let prev = cs.drop_last();
        let last = cs.last();
        assert(prev.push(last) =~= cs);
        lemma_dedupe_components_packages(prev, p);
        lemma_has_package_push(prev, last, p);
        if !has_package(prev, last.0) {
            lemma_has_package_push(dedupe_components(prev), last, p);
        }
    }
}

/// Deduplicating components keeps exactly the packages there were, each once.
pub proof fn law_dedupe_components_keeps_each_package_once(cs: Seq<(Seq<char>, Option<Seq<char>>)>)
    ensures
        forall|p: Seq<char>| has_package(dedupe_components(cs), p) == has_package(cs, p),
        forall|i: int, j: int|
            0 <= i < j < dedupe_components(cs).len() ==> (#[trigger] dedupe_components(cs)[i]).0
                != (#[trigger] dedupe_components(cs)[j]).0,
    decreases cs.len(),
{
    assert forall|p: Seq<char>| has_package(dedupe_components(cs), p) == has_package(cs, p) by {
        lemma_dedupe_components_packages(cs, p);
    }
    if cs.len() > 0 {
        let prev = cs.drop_last();
        let last = cs.last();
        law_dedupe_components_keeps_each_package_once(prev);
        if !has_package(prev, last.0) {
            lemma_dedupe_components_packages(prev, last.0);
            let d = dedupe_components(prev);
            assert forall|i: int, j: int|
                0 <= i < j < d.push(last).len() implies (#[trigger] d.push(last)[i]).0 != (#[trigger] d.push(last)[j]).0 by {
                if j == d.len() {
                    if d[i].0 == last.0 {
                        assert(has_package(d, last.0));
                    }
                } else {
                    assert(d.push(last)[i] == d[i] && d.push(last)[j] == d[j]);
                }
            }
        }
    }
}

/// The recent apps of `dumpsys activity recents` have pairwise distinct
/// packages, each a package of some component of the output's lines, and
/// are all recent apps without a label.
pub proof fn law_recent_apps_are_distinct(output: Seq<char>, apps: Seq<AndroidAppSummary>)
    requires
        apps_are(apps, dedupe_components(line_components(text::lines(output))), AndroidAppState::Recent),
    ensures
        forall|i: int, j: int| 0 <= i < j < apps.len() ==> (#[trigger] apps[i]).package@ != (#[trigger] apps[j]).package@,
        forall|i: int|
            0 <= i < apps.len() ==> (#[trigger] apps[i]).state == AndroidAppState::Recent && apps[i].label is None
                && has_package(line_components(text::lines(output)), apps[i].package@),
{
    let cs = line_components(text::lines(output));
    law_dedupe_components_keeps_each_package_once(cs);
    let d = dedupe_components(cs);
    assert forall|i: int, j: int| 0 <= i < j < apps.len() implies (#[trigger] apps[i]).package@ != (#[trigger] apps[j]).package@ by {
        assert(app_is(apps[i], d[i], AndroidAppState::Recent));
        assert(app_is(apps[j], d[j], AndroidAppState::Recent));
    }
    assert forall|i: int| 0 <= i < apps.len() implies (#[trigger] apps[i]).state == AndroidAppState::Recent
        && apps[i].label is None && has_package(cs, apps[i].package@) by {
        assert(app_is(apps[i], d[i], AndroidAppState::Recent));
        assert(d[i].0 == d[i].0);
        assert(has_package(d, apps[i].package@));
    }
}

/// Adds the app of a component unless its package is already there.
fn add_component(
    out: &mut Vec<AndroidAppSummary>,
    package: String,
    activity: Option<String>,
    state: AndroidAppState,
    Ghost(seen): Ghost<Seq<(Seq<char>, Option<Seq<char>>)>>,
)
    requires
        apps_are(old(out)@, dedupe_components(seen), state),
    ensures
        apps_are(final(out)@, dedupe_components(seen.push((package@, crate::text::opt_view(activity)))), state),
{
    let ghost c = (package@, crate::text::opt_view(activity));
    let ghost all = seen.push(c);
    assert(all.drop_last() =~= seen);
    proof {
        lemma_dedupe_components_packages(seen, package@);
    }
    let p = text::chars_of(package.as_str());
    let mut i: usize = 0;
    while i < out.len()
        invariant
            p@ == package@,
            apps_are(out@, dedupe_components(seen), state),
            i <= out@.len(),
            forall|j: int| 0 <= j < i ==> out@[j].package@ != package@,
        decreases out.len() - i,
    {
        let q = text::chars_of(out[i].package.as_str());
        if text::same(q.as_slice(), p.as_slice()) {
            proof {
                assert(dedupe_components(seen)[i as int].0 == package@);
                assert(has_package(dedupe_components(seen), package@));
                lemma_dedupe_components_packages(seen, package@);
                assert(has_package(seen, package@));
                let all = seen.push((package@, crate::text::opt_view(activity)));
                assert(all.drop_last() =~= seen);
                assert(dedupe_components(all) == dedupe_components(seen));
            }
            return;
        }
        i += 1;
    }
    proof {
        if has_package(dedupe_components(seen), package@) {
            let j = choose|j: int|
                0 <= j < dedupe_components(seen).len() && (#[trigger] dedupe_components(seen)[j]).0 == package@;
            assert(out@[j].package@ == package@);
        }
    }
    let ghost before = out@;
    out.push(AndroidAppSummary { package, activity, label: None, state });
    proof {
        assert(dedupe_components(all) == dedupe_components(seen).push(c));
        assert forall|k: int| 0 <= k < out@.len() implies app_is(
            #[trigger] out@[k],
            dedupe_components(all)[k],
            state,
        ) by {
            if k < before.len() {
                assert(out@[k] == before[k]);
            }
        }
    }
}

/// The components the lines name, in order.
pub open spec fn line_components(ls: Seq<Seq<char>>) -> Seq<(Seq<char>, Option<Seq<char>>)>
    decreases ls.len(),
{
    if ls.len() == 0 {
        seq![]
    } else {
        line_components(ls.drop_last()) + match component_spec(ls.last()) {
            Some(c) => seq![c],
            None => seq![],
        }
    }
}

/// The recent tasks of `dumpsys activity recents`: the component of each
/// line that names one, each package once, in order.
pub fn parse_recent_apps(output: &str) -> (r: Vec<AndroidAppSummary>)
    ensures
        apps_are(r@, dedupe_components(line_components(text::lines(output@))), AndroidAppState::Recent),
{
    let ls = text::text_lines(output);
    let ghost lv = text::lines(output@);
    let mut out: Vec<AndroidAppSummary> = Vec::new();
    let mut i: usize = 0;
    assert(lv.take(0) =~= Seq::<Seq<char>>::empty());
    while i < ls.len()
        invariant
            text::strings_view(ls@) == lv,
            i <= ls@.len(),
            apps_are(out@, dedupe_components(line_components(lv.take(i as int))), AndroidAppState::Recent),
        decreases ls.len() - i,
    {
        proof {
            assert(lv.take(i + 1).drop_last() =~= lv.take(i as int));
            assert(lv.take(i + 1).last() == ls@[i as int]@);
        }
        match parse_component_from_line(ls[i].as_str()) {
            Some((package, activity)) => {
                add_component(
                    &mut out,
                    package,
                    activity,
                    AndroidAppState::Recent,
                    Ghost(line_components(lv.take(i as int))),
                );
                assert(line_components(lv.take(i + 1)) =~= line_components(lv.take(i as int)).push(
                    component_spec(ls@[i as int]@)->0,
                ));
            },
            None => {
                assert(line_components(lv.take(i + 1)) =~= line_components(lv.take(i as int)));
            },
        }
        i += 1;
    }
    assert(lv.take(i as int) =~= lv);
    out
}

/// The first line that shows the focused window or app.
pub open spec fn focus_line(ls: Seq<Seq<char>>) -> Option<Seq<char>>
    decreases ls.len(),
{
    if ls.len() == 0 {
        None
    } else if text::contains(ls[0], "mCurrentFocus"@) || text::contains(ls[0], "mFocusedApp"@) {
        Some(ls[0])
    } else {
        focus_line(ls.drop_first())
    }
}

fn find_focus_line(ls: &Vec<String>) -> (r: Option<usize>)
    ensures
        match focus_line(text::strings_view(ls@)) {
            Some(l) => r matches Some(i) && i < ls@.len() && ls@[i as int]@ == l,
            None => r is None,
        },
{
    let ghost v = text::strings_view(ls@);
    let mut i: usize = 0;
    assert(v.skip(0) =~= v);
    while i < ls.len()
        invariant
            v == text::strings_view(ls@),
            i <= ls@.len(),
            focus_line(v) == focus_line(v.skip(i as int)),
        decreases ls.len() - i,
    {
        let c = text::chars_of(ls[i].as_str());
        proof {
            assert(v.skip(i as int)[0] == ls@[i as int]@);
            assert(v.skip(i as int).drop_first() =~= v.skip(i + 1));
        }
        if text::contains_lit(c.as_slice(), "mCurrentFocus") || text::contains_lit(c.as_slice(), "mFocusedApp") {
            return Some(i);
        }
        i += 1;
    }
    assert(v.skip(i as int).len() == 0);
    None
}

/// The app in focus in `dumpsys window`: the component of the first line
/// that shows the focus.
pub fn parse_active_app(windows: &str) -> (r: Option<AndroidAppSummary>)
    ensures
        match focus_line(text::lines(windows@)) {
            Some(l) => match component_spec(l) {
                Some(c) => r matches Some(a) && app_is(a, c, AndroidAppState::Active),
                None => r is None,
            },
            None => r is None,
        },
{
    let ls = text::text_lines(windows);
    let i = match find_focus_line(&ls) {
        Some(i) => i,
        None => return None,
    };
    match parse_component_from_line(ls[i].as_str()) {
        Some((package, activity)) => Some(
            AndroidAppSummary { package, activity, label: None, state: AndroidAppState::Active },
        ),
        None => None,
    }
}

/// The focused window line of `dumpsys window`, trimmed.
pub fn focused_window(windows: &str) -> (r: Result<String, TendrilError>)
    ensures
        match focus_line(text::lines(windows@)) {
            Some(l) => r matches Ok(s) && s@ == trim(l),
            None => r matches Err(e) && e.code_spec() == "android_focus_unavailable"@ && e.message_spec()
                == "could not find focused Android window/activity in dumpsys window"@,
        },
{
    let ls = text::text_lines(windows);
    match find_focus_line(&ls) {
        Some(i) => {
            let c = text::chars_of(ls[i].as_str());
            Ok(text::string_of(text::trimmed(c.as_slice()).as_slice()))
        },
        None => Err(
            TendrilError::execution_failure(
                "android_focus_unavailable",
                owned("could not find focused Android window/activity in dumpsys window"),
            ),
        ),
    }
}

} // verus!

verus! {

/// The rest of the first word that starts with the prefix.
pub open spec fn first_word_after(ws: Seq<Seq<char>>, prefix: Seq<char>) -> Option<Seq<char>>
    decreases ws.len(),
{
    if ws.len() == 0 {
        None
    } else if text::starts_with(ws[0], prefix) {
        Some(ws[0].skip(prefix.len() as int))
    } else {
        first_word_after(ws.drop_first(), prefix)
    }
}

fn word_after(ws: &Vec<Vec<char>>, prefix: &str) -> (r: Option<String>)
    ensures
        match first_word_after(ws@.map_values(|w: Vec<char>| w@), prefix@) {
            Some(v) => r matches Some(s) && s@ == v,
            None => r is None,
        },
{
    let ghost v = ws@.map_values(|w: Vec<char>| w@);
    let p = text::chars_of(prefix);
    let mut i: usize = 0;
    assert(v.skip(0) =~= v);
    while i < ws.len()
        invariant
            v == ws@.map_values(|w: Vec<char>| w@),
            p@ == prefix@,
            i <= ws@.len(),
            first_word_after(v, prefix@) == first_word_after(v.skip(i as int), prefix@),
        decreases ws.len() - i,
    {
        proof {
            assert(v.skip(i as int)[0] == ws@[i as int]@);
            assert(v.skip(i as int).drop_first() =~= v.skip(i + 1));
        }
        let w = &ws[i];
        if text::starts_with_lit(w.as_slice(), prefix) {
            let pl = p.len();
            let rest = text::slice_vec(w.as_slice(), pl, w.len());
            assert(rest@ =~= w@.skip(prefix@.len() as int));
            return Some(text::string_of(rest.as_slice()));
        }
        i += 1;
    }
    assert(v.skip(i as int).len() == 0);
    None
}

/// The launcher activity a package query line names: the package from a
/// `packageName=` word, else from the line's component; the activity from a
/// `name=` word, else from the component.
pub open spec fn launchable_of(line: Seq<char>) -> Option<(Seq<char>, Option<Seq<char>>)> {
    let t = trim(line);
    let ws = text::words(t);
    let package = match first_word_after(ws, "packageName="@) {
        Some(p) => Some(p),
        None => match component_spec(t) {
            Some(c) => Some(c.0),
            None => None,
        },
    };
    match package {
        None => None,
        Some(p) => Some(
            (
                p,
                match first_word_after(ws, "name="@) {
                    Some(a) => Some(a),
                    None => match component_spec(t) {
                        Some(c) => c.1,
                        None => None,
                    },
                },
            ),
        ),
    }
}

fn launchable_in(line: &str) -> (r: Option<(String, Option<String>)>)
    ensures
        match launchable_of(line@) {
            Some((p, a)) => r matches Some((rp, ra)) && rp@ == p && crate::text::opt_view(ra) == a,
            None => r is None,
        },
{
    let chars = text::chars_of(line);
    let t = text::trimmed(chars.as_slice());
    let ts = text::string_of(t.as_slice());
    let ws = text::split_whitespace(t.as_slice());
    let component = parse_component_from_line(ts.as_str());
    let package = match word_after(&ws, "packageName=") {
        Some(p) => p,
        None => match &component {
            Some((p, _)) => p.clone(),
            None => return None,
        },
    };
    let activity = match word_after(&ws, "name=") {
        Some(a) => Some(a),
        None => match &component {
            Some((_, a)) => opt_clone(a),
            None => None,
        },
    };
    Some((package, activity))
}

/// The components of the lines that name a launcher activity, in order.
pub open spec fn launchable_components(ls: Seq<Seq<char>>) -> Seq<(Seq<char>, Option<Seq<char>>)>
    decreases ls.len(),
{
    if ls.len() == 0 {
        seq![]
    } else {
        launchable_components(ls.drop_last()) + match launchable_of(ls.last()) {
            Some(c) => seq![c],
            None => seq![],
        }
    }
}

/// The launcher activities of a package query, each package once, in order.
pub fn parse_launchable_apps(output: &str) -> (r: Vec<AndroidAppSummary>)
    ensures
        apps_are(r@, dedupe_components(launchable_components(text::lines(output@))), AndroidAppState::Launchable),
{
    let ls = text::text_lines(output);
    let ghost lv = text::lines(output@);
    let mut out: Vec<AndroidAppSummary> = Vec::new();
    let mut i: usize = 0;
    assert(lv.take(0) =~= Seq::<Seq<char>>::empty());
    while i < ls.len()
        invariant
            text::strings_view(ls@) == lv,
            i <= ls@.len(),
            apps_are(out@, dedupe_components(launchable_components(lv.take(i as int))), AndroidAppState::Launchable),
        decreases ls.len() - i,
    {
        proof {
            assert(lv.take(i + 1).drop_last() =~= lv.take(i as int));
            assert(lv.take(i + 1).last() == ls@[i as int]@);
        }
        match launchable_in(ls[i].as_str()) {
            Some((package, activity)) => {
                add_component(
                    &mut out,
                    package,
                    activity,
                    AndroidAppState::Launchable,
                    Ghost(launchable_components(lv.take(i as int))),
                );
                assert(launchable_components(lv.take(i + 1)) =~= launchable_components(lv.take(i as int)).push(
                    launchable_of(ls@[i as int]@)->0,
                ));
            },
            None => {
                assert(launchable_components(lv.take(i + 1)) =~= launchable_components(lv.take(i as int)));
            },
        }
        i += 1;
    }
    assert(lv.take(i as int) =~= lv);
    out
}

pub open spec fn has_app_package(apps: Seq<AndroidAppSummary>, p: Seq<char>) -> bool {
    exists|j: int| 0 <= j < apps.len() && (#[trigger] apps[j]).package@ == p
}

/// The apps with each package kept at its first appearance only.
pub open spec fn dedupe_apps_spec(apps: Seq<AndroidAppSummary>) -> Seq<AndroidAppSummary>
    decreases apps.len(),
{
    if apps.len() == 0 {
        seq![]
    } else if has_app_package(apps.drop_last(), apps.last().package@) {
        dedupe_apps_spec(apps.drop_last())
    } else {
        dedupe_apps_spec(apps.drop_last()).push(apps.last())
    }
}

proof fn lemma_has_app_package_push(apps: Seq<AndroidAppSummary>, x: AndroidAppSummary, p: Seq<char>)
    ensures
        has_app_package(apps.push(x), p) == (has_app_package(apps, p) || x.package@ == p),
{
    if has_app_package(apps.push(x), p) {
        let j = choose|j: int| 0 <= j < apps.push(x).len() && (#[trigger] apps.push(x)[j]).package@ == p;
        if j < apps.len() {
            assert(apps[j].package@ == p);
        }
    }
    if has_app_package(apps, p) {
        let j = choose|j: int| 0 <= j < apps.len() && (#[trigger] apps[j]).package@ == p;
        assert(apps.push(x)[j].package@ == p);
    }
    if x.package@ == p {
        assert(apps.push(x)[apps.len() as int].package@ == p);
    }
}

proof fn lemma_dedupe_apps_packages(apps: Seq<AndroidAppSummary>, p: Seq<char>)
    ensures
        has_app_package(dedupe_apps_spec(apps), p) == has_app_package(apps, p),
    decreases apps.len(),
{
    if apps.len() > 0 {
        let prev = apps.drop_last();
        let last = apps.last();
        assert(prev.push(last) =~= apps);
        lemma_dedupe_apps_packages(prev, p);
        lemma_has_app_package_push(prev, last, p);
        if !has_app_package(prev, last.package@) {
            lemma_has_app_package_push(dedupe_apps_spec(prev), last, p);
        }
    }
}

/// Deduplicating the apps keeps exactly the packages there were, each once.
pub proof fn law_dedupe_apps_keeps_each_package_once(apps: Seq<AndroidAppSummary>)
    ensures
        forall|p: Seq<char>| has_app_package(dedupe_apps_spec(apps), p) == has_app_package(apps, p),
        forall|i: int, j: int|
            0 <= i < j < dedupe_apps_spec(apps).len() ==> (#[trigger] dedupe_apps_spec(apps)[i]).package@
                != (#[trigger] dedupe_apps_spec(apps)[j]).package@,
    decreases apps.len(),
{
    assert forall|p: Seq<char>| has_app_package(dedupe_apps_spec(apps), p) == has_app_package(apps, p) by {
        lemma_dedupe_apps_packages(apps, p);
    }
    if apps.len() > 0 {
        let prev = apps.drop_last();
        let last = apps.last();
        law_dedupe_apps_keeps_each_package_once(prev);
        if !has_app_package(prev, last.package@) {
            lemma_dedupe_apps_packages(prev, last.package@);
            let d = dedupe_apps_spec(prev);
            assert forall|i: int, j: int|
                0 <= i < j < d.push(last).len() implies (#[trigger] d.push(last)[i]).package@
                    != (#[trigger] d.push(last)[j]).package@ by {
                if j == d.len() {
                    if d[i].package@ == last.package@ {
                        assert(has_app_package(d, last.package@));
                    }
                } else {
                    assert(d.push(last)[i] == d[i] && d.push(last)[j] == d[j]);
                }
            }
        }
    }
}

/// Adds an app unless its package is already there.
fn add_app(out: &mut Vec<AndroidAppSummary>, app: AndroidAppSummary, Ghost(seen): Ghost<Seq<AndroidAppSummary>>)
    requires
        old(out)@ == dedupe_apps_spec(seen),
    ensures
        final(out)@ == dedupe_apps_spec(seen.push(app)),
{
    let ghost all = seen.push(app);
    assert(all.drop_last() =~= seen);
    let p = text::chars_of(app.package.as_str());
    let mut i: usize = 0;
    while i < out.len()
        invariant
            p@ == app.package@,
            out@ == dedupe_apps_spec(seen),
            i <= out@.len(),
            forall|j: int| 0 <= j < i ==> out@[j].package@ != app.package@,
        decreases out.len() - i,
    {
        let q = text::chars_of(out[i].package.as_str());
        if text::same(q.as_slice(), p.as_slice()) {
            proof {
                assert(has_app_package(dedupe_apps_spec(seen), app.package@));
                lemma_dedupe_apps_packages(seen, app.package@);
                let all = seen.push(app);
                assert(all.drop_last() =~= seen);
            }
            return;
        }
        i += 1;
    }
    proof {
        lemma_dedupe_apps_packages(seen, app.package@);
        if has_app_package(dedupe_apps_spec(seen), app.package@) {
            let j = choose|j: int|
                0 <= j < dedupe_apps_spec(seen).len() && (#[trigger] dedupe_apps_spec(seen)[j]).package@ == app.package@;
            assert(out@[j].package@ == app.package@);
        }
    }
    out.push(app);
}

/// The apps with each package kept at its first appearance only.
pub fn dedupe_apps(apps: Vec<AndroidAppSummary>) -> (r: Vec<AndroidAppSummary>)
    ensures
        r@ == dedupe_apps_spec(apps@),
{
    let ghost all = apps@;
    let mut source = apps;
    let mut rev: Vec<AndroidAppSummary> = Vec::new();
    while source.len() > 0
        invariant
            source@ + rev@.reverse() == all,
        decreases source.len(),
    {
        let a = source.pop().unwrap();
        proof {
            assert(source@ + rev@.push(a).reverse() =~= all);
        }
        rev.push(a);
    }
    assert(rev@.reverse() =~= all);
    let total = rev.len();
    let mut out: Vec<AndroidAppSummary> = Vec::new();
    let mut j: usize = 0;
    assert(all.take(0) =~= Seq::<AndroidAppSummary>::empty());
    while rev.len() > 0
        invariant
            rev@.reverse() == all.skip(j as int),
            j + rev@.len() == all.len(),
            all.len() == total,
            out@ == dedupe_apps_spec(all.take(j as int)),
        decreases rev.len(),
    {
        let ghost before = rev@;
        let a = rev.pop().unwrap();
        proof {
            assert(before == rev@.push(a));
            assert(before.reverse() =~= seq![a] + rev@.reverse());
            assert(all.skip(j as int)[0] == all[j as int]);
            assert(rev@.reverse() =~= all.skip(j as int).skip(1));
            assert(all.skip(j as int).skip(1) =~= all.skip(j + 1));
            assert(all.take(j + 1) =~= all.take(j as int).push(a));
        }
        add_app(&mut out, a, Ghost(all.take(j as int)));
        j += 1;
    }
    assert(all.take(j as int) =~= all);
    out
}

/// The apps to list as targets: the active app, the recent ones, then the
/// launchable ones, each package once.
pub fn android_target_apps(
    active: Option<&AndroidAppSummary>,
    recent: &Vec<AndroidAppSummary>,
    launchable: &Vec<AndroidAppSummary>,
) -> (r: Vec<AndroidAppSummary>)
    ensures
        r@ == dedupe_apps_spec(
            match active {
                Some(a) => seq![*a],
                None => Seq::<AndroidAppSummary>::empty(),
            } + recent@ + launchable@,
        ),
{
    let mut apps: Vec<AndroidAppSummary> = Vec::new();
    match active {
        Some(a) => apps.push(a.duplicate()),
        None => {},
    }
    let ghost head = apps@;
    let mut i: usize = 0;
    while i < recent.len()
        invariant
            i <= recent@.len(),
            apps@ == head + recent@.take(i as int),
        decreases recent.len() - i,
    {
        apps.push(recent[i].duplicate());
        assert(apps@ =~= head + recent@.take(i + 1));
        i += 1;
    }
    assert(recent@.take(i as int) =~= recent@);
    let ghost mid = apps@;
    let mut k: usize = 0;
    while k < launchable.len()
        invariant
            k <= launchable@.len(),
            apps@ == mid + launchable@.take(k as int),
        decreases launchable.len() - k,
    {
        apps.push(launchable[k].duplicate());
        assert(apps@ =~= mid + launchable@.take(k + 1));
        k += 1;
    }
    assert(launchable@.take(k as int) =~= launchable@);
    proof {
        let a = match active {
            Some(a) => seq![*a],
            None => Seq::<AndroidAppSummary>::empty(),
        };
        assert(head =~= a);
        assert(apps@ =~= a + recent@ + launchable@);
    }
    dedupe_apps(apps)
}

} // verus!

verus! {

// ---------------------------------------------------------------------------
// Devices
// ---------------------------------------------------------------------------

/// The serials `adb devices` lists in the `device` state, in order.
pub open spec fn device_serials(ls: Seq<Seq<char>>) -> Seq<Seq<char>>
    decreases ls.len(),
{
    if ls.len() == 0 {
        seq![]
    } else {
        let ws = text::words(ls.last());
        device_serials(ls.drop_last()) + if ws.len() >= 2 && ws[1] == "device"@ {
            seq![ws[0]]
        } else {
            seq![]
        }
    }
}

/// The message for more than one ready device.
pub open spec fn multiple_devices_message(serials: Seq<Seq<char>>) -> Seq<char> {
    "--android auto found multiple devices "@ + text::joined(serials, ", "@) + "; pass --android <serial>"@
}

/// The device `--android auto` picks from `adb devices`: the one device in
/// the `device` state; none, or more than one, is a selection error.
pub fn select_auto_serial(devices_output: &str) -> (r: Result<String, TendrilError>)
    ensures
        ({
            let serials = device_serials(text::lines(devices_output@));
            &&& serials.len() == 1 ==> (r matches Ok(s) && s@ == serials[0])
            &&& serials.len() != 1 ==> (r matches Err(e) && e.is_structured() && e.category_spec()
                == crate::envelope::ErrorCategory::Validation && e.code_spec()
                == "android_device_selection_failed"@ && e.message_spec() == if serials.len() == 0 {
                "--android auto found no connected adb devices; pass --android <serial> or set TENDRIL_ANDROID_SERIAL"@
            } else {
                multiple_devices_message(serials)
            })
        }),
{
    let ls = text::text_lines(devices_output);
    let ghost lv = text::lines(devices_output@);
    let mut serials: Vec<String> = Vec::new();
    let mut i: usize = 0;
    assert(lv.take(0) =~= Seq::<Seq<char>>::empty());
    while i < ls.len()
        invariant
            text::strings_view(ls@) == lv,
            i <= ls@.len(),
            text::strings_view(serials@) == device_serials(lv.take(i as int)),
        decreases ls.len() - i,
    {
        proof {
            assert(lv.take(i + 1).drop_last() =~= lv.take(i as int));
            assert(lv.take(i + 1).last() == ls@[i as int]@);
        }
        let c = text::chars_of(ls[i].as_str());
        let ws = text::split_whitespace(c.as_slice());
        let ghost wv = ws@.map_values(|w: Vec<char>| w@);
        if ws.len() >= 2 && text::is(ws[1].as_slice(), "device") {
            let ghost before = serials@;
            let s = text::string_of(ws[0].as_slice());
            serials.push(s);
            proof {
                assert(wv[0] == ws@[0]@);
                assert(text::strings_view(serials@) =~= text::strings_view(before).push(s@));
                assert(device_serials(lv.take(i + 1)) =~= device_serials(lv.take(i as int)).push(wv[0]));
            }
        } else {
            proof {
                if wv.len() >= 2 {
                    assert(wv[1] == ws@[1]@);
                }
                assert(device_serials(lv.take(i + 1)) =~= device_serials(lv.take(i as int)));
            }
        }
        i += 1;
    }
    assert(lv.take(i as int) =~= lv);
    if serials.len() == 1 {
        assert(text::strings_view(serials@)[0] == serials@[0]@);
        return Ok(serials[0].clone());
    }
    if serials.len() == 0 {
        return Err(
            TendrilError::validation(
                owned(
                    "--android auto found no connected adb devices; pass --android <serial> or set TENDRIL_ANDROID_SERIAL",
                ),
            ).with_code("android_device_selection_failed"),
        );
    }
    let mut m = owned("--android auto found multiple devices ");
    text::push_str(&mut m, text::join_strings(&serials, ", ").as_str());
    text::push_str(&mut m, "; pass --android <serial>");
    Err(TendrilError::validation(m).with_code("android_device_selection_failed"))
}

/// What `adb` printed for the device queries a summary is made of, each
/// `None` where the command failed.
pub struct AndroidProbeOutputs {
    /// `adb get-state`.
    pub state: Option<String>,
    /// `getprop ro.product.model`.
    pub model: Option<String>,
    /// `wm size`.
    pub wm_size: Option<String>,
    /// `wm density`.
    pub wm_density: Option<String>,
    /// `dumpsys window`.
    pub windows: Option<String>,
    /// `dumpsys activity recents`.
    pub recents: Option<String>,
    /// The launcher activity query.
    pub launchables: Option<String>,
}

/// A command's trimmed output, where it succeeded and printed something.
pub open spec fn nonblank_output(o: Option<String>) -> Option<Seq<char>> {
    match o {
        Some(s) => if trim(s@).len() == 0 {
            None
        } else {
            Some(trim(s@))
        },
        None => None,
    }
}

fn nonblank(o: &Option<String>) -> (r: Option<String>)
    ensures
        crate::text::opt_view(r) == nonblank_output(*o),
{
    match o {
        Some(s) => {
            let c = text::chars_of(s.as_str());
            let t = text::trimmed(c.as_slice());
            if t.len() == 0 {
                None
            } else {
                Some(text::string_of(t.as_slice()))
            }
        },
        None => None,
    }
}

impl AndroidDevice {
    /// The device summary from the query outputs: the state (`unknown` where
    /// `get-state` failed), model and window manager values where present,
    /// the focused window, the active and recent apps, and the number of
    /// launcher activities.
    pub fn summary(&self, outputs: &AndroidProbeOutputs) -> (r: AndroidDeviceSummary)
        ensures
            r.serial@ == self.serial_spec(),
            r.state@ == match outputs.state {
                Some(s) => trim(s@),
                None => "unknown"@,
            },
            crate::text::opt_view(r.model) == nonblank_output(outputs.model),
            crate::text::opt_view(r.wm_size) == nonblank_output(outputs.wm_size),
            crate::text::opt_view(r.wm_density) == nonblank_output(outputs.wm_density),
            crate::text::opt_view(r.focused_window) == match outputs.windows {
                Some(w) => match focus_line(text::lines(w@)) {
                    Some(l) => Some(trim(l)),
                    None => None,
                },
                None => None,
            },
            match outputs.windows {
                Some(w) => match focus_line(text::lines(w@)) {
                    Some(l) => match component_spec(l) {
                        Some(c) => r.active_app matches Some(a) && app_is(a, c, AndroidAppState::Active),
                        None => r.active_app is None,
                    },
                    None => r.active_app is None,
                },
                None => r.active_app is None,
            },
            match outputs.recents {
                Some(t) => apps_are(
                    r.recent_apps@,
                    dedupe_components(line_components(text::lines(t@))),
                    AndroidAppState::Recent,
                ),
                None => r.recent_apps@.len() == 0,
            },
            r.launchable_app_count == match outputs.launchables {
                Some(t) => dedupe_components(launchable_components(text::lines(t@))).len(),
                None => 0,
            },
            r.artifact_dir@ == self.artifact_dir_spec(),
    {
        let state = match &outputs.state {
            Some(s) => {
                let c = text::chars_of(s.as_str());
                text::string_of(text::trimmed(c.as_slice()).as_slice())
            },
            None => {
                proof {
                    reveal_strlit("unknown");
                    assert(trim("unknown"@) =~= "unknown"@) by {
                        assert(text::lead_ws("unknown"@) == 0);
                        assert(text::trail_ws("unknown"@) == 0);
                    }
                }
                owned("unknown")
            },
        };
        let (focused_window, active_app) = match &outputs.windows {
            Some(w) => (
                match focused_window(w.as_str()) {
                    Ok(f) => Some(f),
                    Err(_) => None,
                },
                parse_active_app(w.as_str()),
            ),
            None => (None, None),
        };
        let recent_apps = match &outputs.recents {
            Some(t) => parse_recent_apps(t.as_str()),
            None => Vec::new(),
        };
        let launchable_app_count = match &outputs.launchables {
            Some(t) => parse_launchable_apps(t.as_str()).len(),
            None => 0,
        };
        AndroidDeviceSummary {
            serial: self.serial.clone(),
            state,
            model: nonblank(&outputs.model),
            wm_size: nonblank(&outputs.wm_size),
            wm_density: nonblank(&outputs.wm_density),
            focused_window,
            active_app,
            recent_apps,
            launchable_app_count,
            artifact_dir: self.artifact_dir.clone(),
        }
    }
}

} // verus!

verus! {

/// The screen rectangle, or a one-pixel stand-in where `wm size` gave none.
pub open spec fn screen_or_unit(screen: Option<Bounds>) -> Bounds {
    match screen {
        Some(b) => b,
        None => Bounds { x: 0, y: 0, width: 1, height: 1 },
    }
}

/// An app's window target as the listing shows it.
pub open spec fn app_target_is(t: TargetDescriptor, serial: Seq<char>, app: AndroidAppSummary, bounds: Bounds) -> bool {
    &&& t.id@ == "android:"@ + serial + ":app:"@ + app.package@
    &&& t.kind == TargetKind::Window
    &&& t.name@ == match app.label {
        Some(l) => l@,
        None => app.package@,
    }
    &&& t.title == app.activity
    &&& t.bounds == bounds
    &&& t.scale_factor == ScaleFactor { numerator: 1, denominator: 1 }
    &&& t.capabilities == CapabilitySet { capture: false, input: true, audio: false }
    &&& t.diagnostics@.len() == 0
    &&& t.app_name matches Some(p) && p == app.package
    &&& t.process_id is None
}

impl AndroidDevice {
    /// The device's listing: the device itself as a display (titled by the
    /// focused window, named by its model), then a window per app, all with
    /// the screen rectangle.
    pub fn list_output_with_apps(
        &self,
        apps: &Vec<AndroidAppSummary>,
        screen: Option<Bounds>,
        summary: &AndroidDeviceSummary,
    ) -> (r: ListOutput)
        ensures
            r.adapter == android_adapter_spec(),
            r.permissions@.len() == 0,
            r.cameras@.len() == 0,
            r.targets@.len() == apps@.len() + 1,
            r.targets@[0].id@ == "android:"@ + self.serial_spec(),
            r.targets@[0].kind == TargetKind::Display,
            r.targets@[0].name@ == "Android device "@ + self.serial_spec(),
            r.targets@[0].title == summary.focused_window,
            r.targets@[0].bounds == screen_or_unit(screen),
            r.targets@[0].scale_factor == (ScaleFactor { numerator: 1, denominator: 1 }),
            r.targets@[0].capabilities == (CapabilitySet { capture: true, input: true, audio: false }),
            r.targets@[0].diagnostics@.len() == 0,
            r.targets@[0].app_name == summary.model,
            r.targets@[0].process_id is None,
            forall|i: int|
                0 <= i < apps@.len() ==> app_target_is(
                    #[trigger] r.targets@[i + 1],
                    self.serial_spec(),
                    apps@[i],
                    screen_or_unit(screen),
                ),
    {
        let bounds = match screen {
            Some(b) => b,
            None => Bounds { x: 0, y: 0, width: 1, height: 1 },
        };
        let mut name = owned("Android device ");
        text::push_str(&mut name, self.serial.as_str());
        let mut targets: Vec<TargetDescriptor> = Vec::new();
        targets.push(
            TargetDescriptor {
                id: android_target_id(self.serial.as_str()),
                kind: TargetKind::Display,
                name,
                title: opt_clone(&summary.focused_window),
                bounds,
                scale_factor: ScaleFactor::identity(),
                capabilities: CapabilitySet { capture: true, input: true, audio: false },
                diagnostics: Vec::new(),
                app_name: opt_clone(&summary.model),
                process_id: None,
            },
        );
        let mut i: usize = 0;
        while i < apps.len()
            invariant
                i <= apps@.len(),
                targets@.len() == i + 1,
                targets@[0].id@ == "android:"@ + self.serial_spec(),
                targets@[0].kind == TargetKind::Display,
                targets@[0].name@ == "Android device "@ + self.serial_spec(),
                targets@[0].title == summary.focused_window,
                targets@[0].bounds == bounds,
                bounds == screen_or_unit(screen),
                targets@[0].scale_factor == (ScaleFactor { numerator: 1, denominator: 1 }),
                targets@[0].capabilities == (CapabilitySet { capture: true, input: true, audio: false }),
                targets@[0].diagnostics@.len() == 0,
                targets@[0].app_name == summary.model,
                targets@[0].process_id is None,
                forall|k: int|
                    0 <= k < i ==> app_target_is(#[trigger] targets@[k + 1], self.serial_spec(), apps@[k], bounds),
            decreases apps.len() - i,
        {
            let app = &apps[i];
            let name = match &app.label {
                Some(l) => l.clone(),
                None => app.package.clone(),
            };
            let t = TargetDescriptor {
                id: android_app_target_id(self.serial.as_str(), app.package.as_str()),
                kind: TargetKind::Window,
                name,
                title: opt_clone(&app.activity),
                bounds,
                scale_factor: ScaleFactor::identity(),
                capabilities: CapabilitySet { capture: false, input: true, audio: false },
                diagnostics: Vec::new(),
                app_name: Some(app.package.clone()),
                process_id: None,
            };
            assert(app_target_is(t, self.serial_spec(), apps@[i as int], bounds));
            let ghost before = targets@;
            targets.push(t);
            assert forall|k: int| 0 <= k < i + 1 implies app_target_is(
                #[trigger] targets@[k + 1],
                self.serial_spec(),
                apps@[k],
                bounds,
            ) by {
                if k < i {
                    assert(targets@[k + 1] == before[k + 1]);
                }
            }
            i += 1;
        }
        ListOutput { adapter: android_adapter_info(), permissions: Vec::new(), targets, cameras: Vec::new() }
    }

    /// The device's listing without app windows.
    pub fn list_output(&self, screen: Option<Bounds>, summary: &AndroidDeviceSummary) -> (r: ListOutput)
        ensures
            r.adapter == android_adapter_spec(),
            r.targets@.len() == 1,
            r.targets@[0].id@ == "android:"@ + self.serial_spec(),
            r.targets@[0].kind == TargetKind::Display,
            r.targets@[0].bounds == screen_or_unit(screen),
            r.targets@[0].title == summary.focused_window,
            r.targets@[0].app_name == summary.model,
    {
        let none: Vec<AndroidAppSummary> = Vec::new();
        self.list_output_with_apps(&none, screen, summary)
    }
}

/// The note a UIAutomator element listing carries.
pub open spec fn dump_note(serial: Seq<char>, artifact_dir: Seq<char>) -> Seq<char> {
    "Android UIAutomator dump read from `/sdcard/tendril-window.xml` on `"@ + serial + "`; artifacts in `"@
        + artifact_dir + "`"@
}

/// The indices of the nodes an element listing keeps, in order.
pub open spec fn kept_nodes(nodes: Seq<AndroidNode>, include_offscreen: bool) -> Seq<int>
    decreases nodes.len(),
{
    if nodes.len() == 0 {
        seq![]
    } else {
        kept_nodes(nodes.drop_last(), include_offscreen) + if include_offscreen || nodes.last().visible_spec() {
            seq![nodes.len() - 1]
        } else {
            seq![]
        }
    }
}

impl AndroidDevice {
    /// The element listing of a dump: each node (only those on screen,
    /// unless offscreen ones are asked for) as an element numbered by its
    /// place in the dump, on the device's display target.
    pub fn list_elements_output(&self, include_offscreen: bool, nodes: &Vec<AndroidNode>) -> (r: ElementListOutput)
        ensures
            r.adapter == android_adapter_spec(),
            r.target matches Some(TargetSelector::Display { id }) && id@ == "android:"@ + self.serial_spec(),
            r.elements@.len() == kept_nodes(nodes@, include_offscreen).len(),
            forall|k: int|
                0 <= k < r.elements@.len() ==> {
                    let i = #[trigger] kept_nodes(nodes@, include_offscreen)[k];
                    &&& 0 <= i < nodes@.len()
                    &&& r.elements@[k].id@ == "android-node-"@ + decimal(i as nat)
                    &&& r.elements@[k].name@ == nodes@[i].label_spec()
                    &&& r.elements@[k].bounds == nodes@[i].bounds
                },
            text::strings_view(r.notes@) == seq![dump_note(self.serial_spec(), self.artifact_dir_spec())],
    {
        let target = TargetSelector::Display { id: android_target_id(self.serial.as_str()) };
        let mut elements: Vec<ElementDescriptor> = Vec::new();
        let mut i: usize = 0;
        assert(nodes@.take(0) =~= Seq::<AndroidNode>::empty());
        while i < nodes.len()
            invariant
                i <= nodes@.len(),
                elements@.len() == kept_nodes(nodes@.take(i as int), include_offscreen).len(),
                forall|k: int|
                    0 <= k < elements@.len() ==> {
                        let j = #[trigger] kept_nodes(nodes@.take(i as int), include_offscreen)[k];
                        &&& 0 <= j < i
                        &&& elements@[k].id@ == "android-node-"@ + decimal(j as nat)
                        &&& elements@[k].name@ == nodes@[j].label_spec()
                        &&& elements@[k].bounds == nodes@[j].bounds
                    },
            decreases nodes.len() - i,
        {
            let ghost prev = kept_nodes(nodes@.take(i as int), include_offscreen);
            proof {
                assert(nodes@.take(i + 1).drop_last() =~= nodes@.take(i as int));
                assert(nodes@.take(i + 1).last() == nodes@[i as int]);
            }
            if include_offscreen || nodes[i].visible() {
                let e = nodes[i].to_element(i, &target);
                let ghost before = elements@;
                elements.push(e);
                proof {
                    assert(kept_nodes(nodes@.take(i + 1), include_offscreen) == prev.push(i as int));
                    assert forall|k: int| 0 <= k < elements@.len() implies {
                        let j = #[trigger] kept_nodes(nodes@.take(i + 1), include_offscreen)[k];
                        &&& 0 <= j < i + 1
                        &&& elements@[k].id@ == "android-node-"@ + decimal(j as nat)
                        &&& elements@[k].name@ == nodes@[j].label_spec()
                        &&& elements@[k].bounds == nodes@[j].bounds
                    } by {
                        if k < before.len() {
                            assert(elements@[k] == before[k]);
                            assert(kept_nodes(nodes@.take(i + 1), include_offscreen)[k] == prev[k]);
                        }
                    }
                }
            } else {
                assert(kept_nodes(nodes@.take(i + 1), include_offscreen) =~= prev);
            }
            i += 1;
        }
        assert(nodes@.take(i as int) =~= nodes@);
        let mut note = owned("Android UIAutomator dump read from `/sdcard/tendril-window.xml` on `");
        text::push_str(&mut note, self.serial.as_str());
        text::push_str(&mut note, "`; artifacts in `");
        text::push_str(&mut note, self.artifact_dir.as_str());
        text::push_str(&mut note, "`");
        let mut notes: Vec<String> = Vec::new();
        notes.push(note);
        assert(text::strings_view(notes@) =~= seq![dump_note(self.serial_spec(), self.artifact_dir_spec())]);
        ElementListOutput { adapter: android_adapter_info(), target: Some(target), elements, notes }
    }

    /// The capture of a `screencap` PNG: the whole screen, unresized, as
    /// base64 PNG.
    pub fn capture_output(
        &self,
        compression: u8,
        png: &[u8],
        screen: Option<Bounds>,
        captured_at: String,
    ) -> (r: crate::model::CaptureOutput)
        ensures
            r.adapter == android_adapter_spec(),
            r.target matches TargetSelector::Display { id } && id@ == "android:"@ + self.serial_spec(),
            r.original_bounds == screen_or_unit(screen),
            r.output_bounds == screen_or_unit(screen),
            !r.resized,
            r.format == crate::config::ImageFormat::Png,
            r.compression == compression,
            r.media_type@ == "image/png"@,
            r.image_base64@ == crate::capture::base64_standard(png@),
            r.captured_at == captured_at,
            r.source_to_output == (crate::model::CoordinateTransform {
                x_numerator: 1,
                x_denominator: 1,
                y_numerator: 1,
                y_denominator: 1,
            }),
            r.output_to_source == r.source_to_output,
    {
        let bounds = match screen {
            Some(b) => b,
            None => Bounds { x: 0, y: 0, width: 1, height: 1 },
        };
        crate::model::CaptureOutput {
            adapter: android_adapter_info(),
            target: TargetSelector::Display { id: android_target_id(self.serial.as_str()) },
            original_bounds: bounds,
            output_bounds: bounds,
            source_to_output: crate::model::CoordinateTransform::identity(),
            output_to_source: crate::model::CoordinateTransform::identity(),
            resized: false,
            format: crate::config::ImageFormat::Png,
            compression,
            media_type: owned("image/png"),
            image_base64: crate::capture::base64_encode(png),
            captured_at,
        }
    }
}

} // verus!

verus! {

// ---------------------------------------------------------------------------
// Input plans
// ---------------------------------------------------------------------------

/// What one input action does on the device through `adb`.
#[derive(Debug, Clone, PartialEq, Eq)]
pub enum AndroidStep {
    /// `input tap X Y`.
    Tap { x: i32, y: i32 },
    /// Two taps, 80 ms apart.
    DoubleTap { x: i32, y: i32 },
    /// `input swipe X0 Y0 X1 Y1 MS`.
    Swipe { x0: i32, y0: i32, x1: i32, y1: i32, duration_ms: u64 },
    /// `input text` with the text already escaped.
    Text { escaped: String },
    /// `input keyevent CODE`.
    KeyEvent { code: String },
    /// A pause.
    Wait { duration_ms: u64 },
    /// An element action, resolved by `classify_android_selector`.
    Selector { id: String },
    /// Nothing to do (pointer moves have no meaning on a touch screen).
    Nothing,
}

/// `i32::saturating_mul` by 80, then kept within ±1200: how far a scroll
/// swipes.
pub open spec fn scroll_distance(dy: i32) -> i32 {
    let d = dy * 80;
    if d > 1200 {
        1200i32
    } else if d < -1200 {
        -1200i32
    } else {
        d as i32
    }
}

fn scroll_distance_exec(dy: i32) -> (r: i32)
    ensures
        r == scroll_distance(dy),
{
    let d: i64 = (dy as i64) * 80;
    if d > 1200 {
        1200
    } else if d < -1200 {
        -1200
    } else {
        d as i32
    }
}

/// The message for a key the device does not know.
pub open spec fn unknown_key_message(key: Seq<char>) -> Seq<char> {
    "unsupported Android key `"@ + key
        + "`; use BACK, HOME, ENTER, WAKEUP, MENU, TAB, SPACE, ESCAPE, or a numeric keyevent code"@
}

/// The key event for a key tap, or the validation error for an unknown key.
pub fn android_key_step(key: &str) -> (r: Result<String, TendrilError>)
    ensures
        match android_key_spec(key@) {
            Some(c) => r matches Ok(s) && s@ == c,
            None => r matches Err(e) && is_invalid(e, "invalid_run_input"@, "key"@, unknown_key_message(key@)),
        },
{
    match android_key_event(key) {
        Some(code) => Ok(code),
        None => {
            let mut m = owned("unsupported Android key `");
            text::push_str(&mut m, key);
            text::push_str(
                &mut m,
                "`; use BACK, HOME, ENTER, WAKEUP, MENU, TAB, SPACE, ESCAPE, or a numeric keyevent code",
            );
            Err(TendrilError::invalid(m, "invalid_run_input", "key"))
        },
    }
}

/// The name `{:?}` prints for a mouse button.
pub open spec fn button_name(b: MouseButton) -> Seq<char> {
    match b {
        MouseButton::Left => "Left"@,
        MouseButton::Right => "Right"@,
        MouseButton::Middle => "Middle"@,
    }
}

/// Whether the error is an unsupported-capability error with the code,
/// message and action index.
pub open spec fn is_unsupported_at(e: TendrilError, code: Seq<char>, message: Seq<char>, index: usize) -> bool {
    &&& e.is_structured()
    &&& e.category_spec() == crate::envelope::ErrorCategory::UnsupportedCapability
    &&& e.code_spec() == code
    &&& e.message_spec() == message
    &&& e.detail_spec("action_index"@) == Some(DetailValue::Number(index as u64))
}

/// The step an action becomes: taps for clicks of the primary button,
/// swipes for drags and scrolls (a scroll swipes 80 pixels a tick, at most
/// 1200, towards its point), escaped text, key events, waits and element
/// actions; other buttons and held modifiers are refused.
pub fn plan_android_action(action: &InputAction, action_index: usize) -> (r: Result<AndroidStep, TendrilError>)
    ensures
        match action {
            InputAction::Click { button, x, y } => if *button == MouseButton::Left {
                r == Ok::<AndroidStep, TendrilError>(AndroidStep::Tap { x: *x, y: *y })
            } else {
                r matches Err(e) && is_unsupported_at(
                    e,
                    "android_mouse_button_unsupported"@,
                    "Android adb input supports primary taps, not "@ + button_name(*button) + " clicks"@,
                    action_index,
                )
            },
            InputAction::DoubleClick { x, y } => r == Ok::<AndroidStep, TendrilError>(
                AndroidStep::DoubleTap { x: *x, y: *y },
            ),
            InputAction::PointerMove { .. } => r == Ok::<AndroidStep, TendrilError>(AndroidStep::Nothing),
            InputAction::Drag { x0, y0, x1, y1 } => r == Ok::<AndroidStep, TendrilError>(
                AndroidStep::Swipe { x0: *x0, y0: *y0, x1: *x1, y1: *y1, duration_ms: DEFAULT_SWIPE_MS },
            ),
            InputAction::Scroll { x, y, dy } => r == Ok::<AndroidStep, TendrilError>(
                AndroidStep::Swipe {
                    x0: *x,
                    y0: sat_add_i32(*y, scroll_distance(*dy)),
                    x1: *x,
                    y1: *y,
                    duration_ms: DEFAULT_SWIPE_MS,
                },
            ),
            InputAction::Send { text } => r matches Ok(AndroidStep::Text { escaped }) && escaped@ == escaped_input(
                text@,
            ),
            InputAction::KeyTap { key } => match android_key_spec(key@) {
                Some(c) => r matches Ok(AndroidStep::KeyEvent { code }) && code@ == c,
                None => r matches Err(e) && is_invalid(e, "invalid_run_input"@, "key"@, unknown_key_message(key@)),
            },
            InputAction::Wait { duration_ms } => r == Ok::<AndroidStep, TendrilError>(
                AndroidStep::Wait { duration_ms: *duration_ms },
            ),
            InputAction::ElementClick { id } => r matches Ok(AndroidStep::Selector { id: sid }) && sid == *id,
            InputAction::Hold { .. } | InputAction::Release { .. } => r matches Err(e) && is_unsupported_at(
                e,
                "android_modifier_hold_unsupported"@,
                "Android adb input does not support holding modifier keys in the MVP backend"@,
                action_index,
            ),
        },
{
    match action {
        InputAction::Click { button, x, y } => {
            match button {
                MouseButton::Left => Ok(AndroidStep::Tap { x: *x, y: *y }),
                _ => {
                    let mut m = owned("Android adb input supports primary taps, not ");
                    text::push_str(
                        &mut m,
                        match button {
                            MouseButton::Left => "Left",
                            MouseButton::Right => "Right",
                            MouseButton::Middle => "Middle",
                        },
                    );
                    text::push_str(&mut m, " clicks");
                    Err(
                        TendrilError::unsupported_capability("android_mouse_button_unsupported", m).with_detail_entry(
                            "action_index",
                            DetailValue::Number(action_index as u64),
                        ),
                    )
                },
            }
        },
        InputAction::DoubleClick { x, y } => Ok(AndroidStep::DoubleTap { x: *x, y: *y }),
        InputAction::PointerMove { .. } => Ok(AndroidStep::Nothing),
        InputAction::Drag { x0, y0, x1, y1 } => Ok(
            AndroidStep::Swipe { x0: *x0, y0: *y0, x1: *x1, y1: *y1, duration_ms: DEFAULT_SWIPE_MS },
        ),
        InputAction::Scroll { x, y, dy } => {
            let distance = scroll_distance_exec(*dy);
            Ok(AndroidStep::Swipe { x0: *x, y0: sat_add(*y, distance), x1: *x, y1: *y, duration_ms: DEFAULT_SWIPE_MS })
        },
        InputAction::Send { text } => Ok(AndroidStep::Text { escaped: escape_android_input_text(text.as_str()) }),
        InputAction::KeyTap { key } => {
            let code = android_key_step(key.as_str())?;
            Ok(AndroidStep::KeyEvent { code })
        },
        InputAction::Wait { duration_ms } => Ok(AndroidStep::Wait { duration_ms: *duration_ms }),
        InputAction::ElementClick { id } => Ok(AndroidStep::Selector { id: id.clone() }),
        InputAction::Hold { .. } | InputAction::Release { .. } => Err(
            TendrilError::unsupported_capability(
                "android_modifier_hold_unsupported",
                owned("Android adb input does not support holding modifier keys in the MVP backend"),
            ).with_detail_entry("action_index", DetailValue::Number(action_index as u64)),
        ),
    }
}

} // verus!

verus! {

/// What an element action on Android does.
#[derive(Debug, Clone, PartialEq, Eq)]
pub enum AndroidSelectorAction {
    /// Start the app with `monkey -p PACKAGE -c android.intent.category.LAUNCHER 1`.
    Launch { package: String },
    /// `input keyevent CODE`.
    Key { code: String },
    /// `cmd statusbar COMMAND`.
    StatusBar { command: String },
    /// Write the device summary to the artifact directory.
    WriteStatus,
    /// Fail unless a node matches.
    AssertVisible { selector: String },
    /// Fail if a node matches.
    AssertAbsent { selector: String },
    /// Tap the middle of the matching node, scrolling to it first where
    /// asked.
    Tap { selector: String, scroll: bool },
}

/// The part after the first launch prefix the id starts with.
pub open spec fn launch_package(id: Seq<char>) -> Option<Seq<char>> {
    if text::starts_with(id, "launch:"@) {
        Some(id.skip(7))
    } else if text::starts_with(id, "package:"@) {
        Some(id.skip(8))
    } else if text::starts_with(id, "open:"@) {
        Some(id.skip(5))
    } else if text::starts_with(id, "switch:"@) {
        Some(id.skip(7))
    } else {
        None
    }
}

/// Whether the text holds a whitespace character.
pub open spec fn has_whitespace(s: Seq<char>) -> bool {
    exists|i: int| 0 <= i < s.len() && text::is_ws(#[trigger] s[i])
}

/// The action an element id asks for on Android.
pub open spec fn selector_action_kind(id: Seq<char>) -> int {
    if launch_package(id) is Some {
        0
    } else if id == "android:back"@ || id == "android:home"@ || id == "android:recents"@ || id
        == "android:assistant"@ {
        1
    } else if id == "android:notifications"@ || id == "android:quicksettings"@ {
        2
    } else if id == "android:status"@ {
        3
    } else if text::starts_with(id, "assert-visible:"@) {
        4
    } else if text::starts_with(id, "assert-absent:"@) {
        5
    } else {
        6
    }
}

fn strip_prefix_lit(s: &[char], lit: &str) -> (r: Option<Vec<char>>)
    ensures
        match r {
            Some(v) => text::starts_with(s@, lit@) && v@ == s@.skip(lit@.len() as int),
            None => !text::starts_with(s@, lit@),
        },
{
    if text::starts_with_lit(s, lit) {
        let n = text::chars_of(lit).len();
        let v = text::slice_vec(s, n, s.len());
        assert(v@ =~= s@.skip(lit@.len() as int));
        Some(v)
    } else {
        None
    }
}

/// What an element id does on Android: `launch:`, `package:`, `open:` or
/// `switch:` start a package (which must be a name without whitespace);
/// `android:back`, `home`, `recents` and `assistant` press keys;
/// `android:notifications` and `quicksettings` open the shade;
/// `android:status` writes the summary; `assert-visible:` and
/// `assert-absent:` check a selector; anything else taps the node a
/// selector (after `scroll-until:`, scrolling to it) picks.
pub fn classify_android_selector(id: &str) -> (r: Result<AndroidSelectorAction, TendrilError>)
    ensures
        ({
            let k = selector_action_kind(id@);
            &&& k == 0 ==> ({
                let p = launch_package(id@)->0;
                if trim(p).len() == 0 || has_whitespace(p) {
                    r matches Err(e) && is_invalid(
                        e,
                        "invalid_run_input"@,
                        "package"@,
                        "Android launch package must be a non-empty package name without whitespace"@,
                    )
                } else {
                    r matches Ok(AndroidSelectorAction::Launch { package }) && package@ == p
                }
            })
            &&& k == 1 ==> (r matches Ok(AndroidSelectorAction::Key { code }) && code@ == if id@ == "android:back"@ {
                "KEYCODE_BACK"@
            } else if id@ == "android:home"@ {
                "KEYCODE_HOME"@
            } else if id@ == "android:recents"@ {
                "KEYCODE_APP_SWITCH"@
            } else {
                "KEYCODE_ASSIST"@
            })
            &&& k == 2 ==> (r matches Ok(AndroidSelectorAction::StatusBar { command }) && command@ == if id@
                == "android:notifications"@ {
                "expand-notifications"@
            } else {
                "expand-settings"@
            })
            &&& k == 3 ==> r == Ok::<AndroidSelectorAction, TendrilError>(AndroidSelectorAction::WriteStatus)
            &&& k == 4 ==> (r matches Ok(AndroidSelectorAction::AssertVisible { selector }) && selector@ == id@.skip(
                15,
            ))
            &&& k == 5 ==> (r matches Ok(AndroidSelectorAction::AssertAbsent { selector }) && selector@ == id@.skip(
                14,
            ))
            &&& k == 6 ==> (r matches Ok(AndroidSelectorAction::Tap { selector, scroll }) && scroll
                == text::starts_with(id@, "scroll-until:"@) && selector@ == if scroll {
                id@.skip(13)
            } else {
                id@
            })
        }),
{
    proof {
        reveal_strlit("launch:");
        reveal_strlit("package:");
        reveal_strlit("open:");
        reveal_strlit("switch:");
        reveal_strlit("assert-visible:");
        reveal_strlit("assert-absent:");
        reveal_strlit("scroll-until:");
    }
    let chars = text::chars_of(id);
    let launch = match strip_prefix_lit(chars.as_slice(), "launch:") {
        Some(p) => Some(p),
        None => match strip_prefix_lit(chars.as_slice(), "package:") {
            Some(p) => Some(p),
            None => match strip_prefix_lit(chars.as_slice(), "open:") {
                Some(p) => Some(p),
                None => strip_prefix_lit(chars.as_slice(), "switch:"),
            },
        },
    };
    match launch {
        Some(p) => {
            assert(launch_package(id@) == Some(p@));
            if text::is_blank(p.as_slice()) || has_space(p.as_slice()) {
                return Err(
                    TendrilError::invalid(
                        owned("Android launch package must be a non-empty package name without whitespace"),
                        "invalid_run_input",
                        "package",
                    ),
                );
            }
            return Ok(AndroidSelectorAction::Launch { package: text::string_of(p.as_slice()) });
        },
        None => {},
    }
    let cs = chars.as_slice();
    if text::is(cs, "android:back") {
        return Ok(AndroidSelectorAction::Key { code: owned("KEYCODE_BACK") });
    }
    if text::is(cs, "android:home") {
        return Ok(AndroidSelectorAction::Key { code: owned("KEYCODE_HOME") });
    }
    if text::is(cs, "android:recents") {
        return Ok(AndroidSelectorAction::Key { code: owned("KEYCODE_APP_SWITCH") });
    }
    if text::is(cs, "android:assistant") {
        return Ok(AndroidSelectorAction::Key { code: owned("KEYCODE_ASSIST") });
    }
    if text::is(cs, "android:notifications") {
        return Ok(AndroidSelectorAction::StatusBar { command: owned("expand-notifications") });
    }
    if text::is(cs, "android:quicksettings") {
        return Ok(AndroidSelectorAction::StatusBar { command: owned("expand-settings") });
    }
    if text::is(cs, "android:status") {
        return Ok(AndroidSelectorAction::WriteStatus);
    }
    match strip_prefix_lit(cs, "assert-visible:") {
        Some(s) => return Ok(AndroidSelectorAction::AssertVisible { selector: text::string_of(s.as_slice()) }),
        None => {},
    }
    match strip_prefix_lit(cs, "assert-absent:") {
        Some(s) => return Ok(AndroidSelectorAction::AssertAbsent { selector: text::string_of(s.as_slice()) }),
        None => {},
    }
    match strip_prefix_lit(cs, "scroll-until:") {
        Some(s) => Ok(AndroidSelectorAction::Tap { selector: text::string_of(s.as_slice()), scroll: true }),
        None => Ok(AndroidSelectorAction::Tap { selector: owned(id), scroll: false }),
    }
}

fn has_space(s: &[char]) -> (r: bool)
    ensures
        r == has_whitespace(s@),
{
    let mut i: usize = 0;
    while i < s.len()
        invariant
            i <= s@.len(),
            forall|j: int| 0 <= j < i ==> !text::is_ws(#[trigger] s@[j]),
        decreases s.len() - i,
    {
        if text::is_whitespace(s[i]) {
            return true;
        }
        i += 1;
    }
    false
}

/// The message of a failed absence check.
pub open spec fn assert_absent_message(selector: Seq<char>) -> Seq<char> {
    "Android selector `"@ + selector + "` was visible but assert-absent expected it to be absent"@
}

/// What a check or a tap makes of the dump: a check passes or fails, a tap
/// yields the middle of the matching node.
#[verifier::rlimit(40)]
pub fn resolve_selector_on_nodes(
    action: &AndroidSelectorAction,
    nodes: &Vec<AndroidNode>,
    action_index: usize,
) -> (r: Result<Option<(i32, i32)>, TendrilError>)
    ensures
        match action {
            AndroidSelectorAction::AssertVisible { selector } => match selector_node_spec(nodes@, selector@) {
                Some(_) => r == Ok::<Option<(i32, i32)>, TendrilError>(None),
                None => r matches Err(e) && e.code_spec() == "target_not_found"@ && e.message_spec()
                    == "android_element"@ + " `"@ + selector@ + "` was not found"@ && e.detail_spec("action_index"@)
                    == Some(DetailValue::Number(action_index as u64)),
            },
            AndroidSelectorAction::AssertAbsent { selector } => match selector_node_spec(nodes@, selector@) {
                None => r == Ok::<Option<(i32, i32)>, TendrilError>(None),
                Some(_) => r matches Err(e) && e.code_spec() == "android_assert_absent_failed"@
                    && e.message_spec() == assert_absent_message(selector@) && e.detail_spec("action_index"@)
                    == Some(DetailValue::Number(action_index as u64)),
            },
            AndroidSelectorAction::Tap { selector, .. } => match selector_node_spec(nodes@, selector@) {
                None => r matches Err(e) && e.code_spec() == "target_not_found"@ && e.message_spec()
                    == "android_element"@ + " `"@ + selector@ + "` was not found"@,
                Some(i) => match nodes@[i].center_spec() {
                    Some(c) => r == Ok::<Option<(i32, i32)>, TendrilError>(Some(c)),
                    None => r matches Err(e) && e.code_spec() == "android_element_missing_bounds"@
                        && e.message_spec() == "Android element `"@ + selector@
                        + "` did not expose usable bounds"@,
                },
            },
            _ => r == Ok::<Option<(i32, i32)>, TendrilError>(None),
        },
{
    match action {
        AndroidSelectorAction::AssertVisible { selector } => match find_node_for_selector(nodes, selector.as_str()) {
            Some(_) => Ok(None),
            None => {
                let e = TendrilError::target_not_found("android_element", selector.as_str());
                let e = e.with_detail_entry("action_index", DetailValue::Number(action_index as u64));
                assert(e.message_spec() == "android_element"@ + " `"@ + selector@ + "` was not found"@);
                assert(e.detail_spec("action_index"@) == Some(DetailValue::Number(action_index as u64)));
                Err(e)
            },
        },
        AndroidSelectorAction::AssertAbsent { selector } => match find_node_for_selector(nodes, selector.as_str()) {
            None => Ok(None),
            Some(_) => {
                let mut m = owned("Android selector `");
                text::push_str(&mut m, selector.as_str());
                text::push_str(&mut m, "` was visible but assert-absent expected it to be absent");
                Err(
                    TendrilError::validation(m).with_code("android_assert_absent_failed").with_detail_entry(
                        "action_index",
                        DetailValue::Number(action_index as u64),
                    ),
                )
            },
        },
        AndroidSelectorAction::Tap { selector, .. } => {
            let found = find_node_for_selector(nodes, selector.as_str());
            let ghost spec = selector_node_spec(nodes@, selector@);
            let count = nodes.len();
            match found {
                None => Err(
                    TendrilError::target_not_found("android_element", selector.as_str()).with_detail_entry(
                        "action_index",
                        DetailValue::Number(action_index as u64),
                    ),
                ),
                Some(i) => {
                    assert(spec is Some);
                    assert(spec->0 == i as int);
                    match nodes[i].center() {
                        Some(c) => Ok(Some(c)),
                        None => {
                            let mut m = owned("Android element `");
                            text::push_str(&mut m, selector.as_str());
                            text::push_str(&mut m, "` did not expose usable bounds");
                            Err(
                                TendrilError::execution_failure("android_element_missing_bounds", m).with_detail_entry(
                                    "action_index",
                                    DetailValue::Number(action_index as u64),
                                ),
                            )
                        },
                    }
                },
            }
        },
        _ => Ok(None),
    }
}

/// The swipe that scrolls towards an element: up from four fifths of the
/// screen height to one fifth, at half the width (a 1080x1920 screen where
/// the size is unknown).
pub open spec fn scroll_swipe_spec(screen: Option<Bounds>) -> (i32, i32, i32, i32) {
    let b = match screen {
        Some(b) => b,
        None => Bounds { x: 0, y: 0, width: 1080, height: 1920 },
    };
    let h4: int = if b.height * 4 > u32::MAX {
        u32::MAX as int
    } else {
        b.height * 4
    };
    ((b.width / 2) as i32, (h4 / 5) as i32, (b.width / 2) as i32, (b.height / 5) as i32)
}

pub fn scroll_swipe(screen: Option<Bounds>) -> (r: (i32, i32, i32, i32))
    ensures
        r == scroll_swipe_spec(screen),
{
    let b = match screen {
        Some(b) => b,
        None => Bounds { x: 0, y: 0, width: 1080, height: 1920 },
    };
    let h4: u64 = if (b.height as u64) * 4 > u32::MAX as u64 {
        u32::MAX as u64
    } else {
        (b.height as u64) * 4
    };
    let x: i32 = (b.width / 2) as i32;
    let y0: i32 = (h4 / 5) as i32;
    let y1: i32 = (b.height / 5) as i32;
    (x, y0, x, y1)
}

} // verus!

verus! {

// ---------------------------------------------------------------------------
// adb command lines
// ---------------------------------------------------------------------------

/// `shell input tap X Y`.
pub fn tap_args(x: i32, y: i32) -> (r: Vec<String>)
    ensures
        text::strings_view(r@) == seq!["shell"@, "input"@, "tap"@, text::signed_decimal(x as int), text::signed_decimal(y as int)],
{
    let mut r: Vec<String> = Vec::new();
    r.push(owned("shell"));
    r.push(owned("input"));
    r.push(owned("tap"));
    r.push(text::format_i64(x as i64));
    r.push(text::format_i64(y as i64));
    assert(text::strings_view(r@) =~= seq!["shell"@, "input"@, "tap"@, text::signed_decimal(x as int), text::signed_decimal(y as int)]);
    r
}

/// `shell input swipe X0 Y0 X1 Y1 MS`.
pub fn swipe_args(x0: i32, y0: i32, x1: i32, y1: i32, duration_ms: u64) -> (r: Vec<String>)
    ensures
        text::strings_view(r@) == seq![
            "shell"@,
            "input"@,
            "swipe"@,
            text::signed_decimal(x0 as int),
            text::signed_decimal(y0 as int),
            text::signed_decimal(x1 as int),
            text::signed_decimal(y1 as int),
            decimal(duration_ms as nat),
        ],
{
    let mut r: Vec<String> = Vec::new();
    r.push(owned("shell"));
    r.push(owned("input"));
    r.push(owned("swipe"));
    r.push(text::format_i64(x0 as i64));
    r.push(text::format_i64(y0 as i64));
    r.push(text::format_i64(x1 as i64));
    r.push(text::format_i64(y1 as i64));
    r.push(text::format_u64(duration_ms));
    assert(text::strings_view(r@) =~= seq![
        "shell"@,
        "input"@,
        "swipe"@,
        text::signed_decimal(x0 as int),
        text::signed_decimal(y0 as int),
        text::signed_decimal(x1 as int),
        text::signed_decimal(y1 as int),
        decimal(duration_ms as nat),
    ]);
    r
}

/// `shell input text TEXT`, the text escaped.
pub fn input_text_args(input: &str) -> (r: Vec<String>)
    ensures
        text::strings_view(r@) == seq!["shell"@, "input"@, "text"@, escaped_input(input@)],
{
    let mut r: Vec<String> = Vec::new();
    r.push(owned("shell"));
    r.push(owned("input"));
    r.push(owned("text"));
    r.push(escape_android_input_text(input));
    assert(text::strings_view(r@) =~= seq!["shell"@, "input"@, "text"@, escaped_input(input@)]);
    r
}

/// `shell input keyevent CODE`.
pub fn key_event_args(code: &str) -> (r: Vec<String>)
    ensures
        text::strings_view(r@) == seq!["shell"@, "input"@, "keyevent"@, code@],
{
    let mut r: Vec<String> = Vec::new();
    r.push(owned("shell"));
    r.push(owned("input"));
    r.push(owned("keyevent"));
    r.push(owned(code));
    assert(text::strings_view(r@) =~= seq!["shell"@, "input"@, "keyevent"@, code@]);
    r
}

/// `shell monkey -p PACKAGE -c android.intent.category.LAUNCHER 1`.
pub fn launch_args(package: &str) -> (r: Vec<String>)
    ensures
        text::strings_view(r@) == seq![
            "shell"@,
            "monkey"@,
            "-p"@,
            package@,
            "-c"@,
            "android.intent.category.LAUNCHER"@,
            "1"@,
        ],
{
    let mut r: Vec<String> = Vec::new();
    r.push(owned("shell"));
    r.push(owned("monkey"));
    r.push(owned("-p"));
    r.push(owned(package));
    r.push(owned("-c"));
    r.push(owned("android.intent.category.LAUNCHER"));
    r.push(owned("1"));
    assert(text::strings_view(r@) =~= seq![
        "shell"@,
        "monkey"@,
        "-p"@,
        package@,
        "-c"@,
        "android.intent.category.LAUNCHER"@,
        "1"@,
    ]);
    r
}

/// `shell cmd statusbar COMMAND`.
pub fn statusbar_args(command: &str) -> (r: Vec<String>)
    ensures
        text::strings_view(r@) == seq!["shell"@, "cmd"@, "statusbar"@, command@],
{
    let mut r: Vec<String> = Vec::new();
    r.push(owned("shell"));
    r.push(owned("cmd"));
    r.push(owned("statusbar"));
    r.push(owned(command));
    assert(text::strings_view(r@) =~= seq!["shell"@, "cmd"@, "statusbar"@, command@]);
    r
}

// ---------------------------------------------------------------------------
// Run answers
// ---------------------------------------------------------------------------

/// How many actions a payload performs on Android: one for text, one per
/// action, none for a DSL sequence.
pub open spec fn payload_action_count(payload: crate::model::RunInputPayload) -> nat {
    match payload {
        crate::model::RunInputPayload::Text { .. } => 1,
        crate::model::RunInputPayload::Dsl { .. } => 0,
        crate::model::RunInputPayload::Actions { actions } => actions@.len(),
    }
}

/// The note of a payload that held actions.
pub open spec fn dispatched_note(count: nat, serial: Seq<char>, artifact_dir: Seq<char>) -> Seq<char> {
    "dispatched "@ + decimal(count) + " Android action(s) through adb input/uiautomator on `"@ + serial
        + "`; artifacts in `"@ + artifact_dir + "`"@
}

impl AndroidDevice {
    /// The run answer once a payload's steps were performed: the count of
    /// actions, a note for text and one for actions, the focused window and
    /// the device as the focus that was held before.
    pub fn run_output(
        &self,
        payload: &crate::model::RunInputPayload,
        focused: Option<String>,
        model: Option<String>,
    ) -> (r: crate::model::RunOutput)
        ensures
            r.adapter == android_adapter_spec(),
            r.target matches TargetSelector::Display { id } && id@ == "android:"@ + self.serial_spec(),
            !r.focus_required && !r.focus_transferred && !r.focus_restored && !r.pointer_restored,
            r.action_count == payload_action_count(*payload),
            r.focused_target == focused,
            r.previous_focus matches Some(f) && f.id@ == self.serial_spec() && f.kind@ == "android_device"@ && f.name
                == model,
            r.restore_error is None,
            r.execution_lock is None,
            text::strings_view(r.notes@) == (match payload {
                crate::model::RunInputPayload::Text { .. } => seq!["sent Android text input via `adb shell input text`"@],
                _ => Seq::<Seq<char>>::empty(),
            }) + match payload {
                crate::model::RunInputPayload::Actions { actions } => if actions@.len() > 0 {
                    seq![dispatched_note(actions@.len(), self.serial_spec(), self.artifact_dir_spec())]
                } else {
                    Seq::<Seq<char>>::empty()
                },
                _ => Seq::<Seq<char>>::empty(),
            },
    {
        let mut notes: Vec<String> = Vec::new();
        let mut action_count: usize = 0;
        match payload {
            crate::model::RunInputPayload::Text { .. } => {
                action_count = 1;
                notes.push(owned("sent Android text input via `adb shell input text`"));
            },
            crate::model::RunInputPayload::Dsl { .. } => {},
            crate::model::RunInputPayload::Actions { actions } => {
                action_count = actions.len();
                if actions.len() > 0 {
                    let mut m = owned("dispatched ");
                    text::push_str(&mut m, text::format_u64(actions.len() as u64).as_str());
                    text::push_str(&mut m, " Android action(s) through adb input/uiautomator on `");
                    text::push_str(&mut m, self.serial.as_str());
                    text::push_str(&mut m, "`; artifacts in `");
                    text::push_str(&mut m, self.artifact_dir.as_str());
                    text::push_str(&mut m, "`");
                    notes.push(m);
                }
            },
        }
        assert(text::strings_view(notes@) =~= (match payload {
            crate::model::RunInputPayload::Text { .. } => seq!["sent Android text input via `adb shell input text`"@],
            _ => Seq::<Seq<char>>::empty(),
        }) + match payload {
            crate::model::RunInputPayload::Actions { actions } => if actions@.len() > 0 {
                seq![dispatched_note(actions@.len(), self.serial_spec(), self.artifact_dir_spec())]
            } else {
                Seq::<Seq<char>>::empty()
            },
            _ => Seq::<Seq<char>>::empty(),
        });
        crate::model::RunOutput {
            adapter: android_adapter_info(),
            target: TargetSelector::Display { id: android_target_id(self.serial.as_str()) },
            focus_required: false,
            focus_transferred: false,
            action_count,
            focused_target: focused,
            previous_focus: Some(
                crate::model::FocusSnapshot { id: self.serial.clone(), kind: owned("android_device"), name: model },
            ),
            focus_restored: false,
            pointer_restored: false,
            restore_error: None,
            notes,
            execution_lock: None,
        }
    }
}

} // verus!
