//! The shared request/response model of Tendril commands and the validation
//! rules every request passes before it reaches a platform adapter.
use vstd::prelude::*;

use crate::config::ImageFormat;
use crate::envelope::ErrorCategory;
use crate::error::{is_invalid, DetailValue, TendrilError};
use crate::execution_lock::ExecutionLockReport;
use crate::platform::{AdapterInfo, PermissionStatus, TargetCapabilityDiagnostic};
use crate::text::{self, owned, trim, is_ascii_alnum};

verus! {

#[derive(Debug, Clone, Copy, PartialEq, Eq, Structural)]
pub enum TargetKind {
    Window,
    Display,
    AudioSource,
}

#[derive(Debug, Clone, PartialEq, Eq)]
pub enum TargetSelector {
    Window { id: String },
    Display { id: String },
}

impl TargetSelector {
    pub open spec fn kind_spec(&self) -> TargetKind {
        match self {
            TargetSelector::Window { .. } => TargetKind::Window,
            TargetSelector::Display { .. } => TargetKind::Display,
        }
    }

    pub open spec fn id_spec(&self) -> Seq<char> {
        match self {
            TargetSelector::Window { id } => id@,
            TargetSelector::Display { id } => id@,
        }
    }

    /// A copy of this selector.
    pub fn duplicate(&self) -> (r: Self)
        ensures
            r == *self,
    {
        match self {
            TargetSelector::Window { id } => TargetSelector::Window { id: id.clone() },
            TargetSelector::Display { id } => TargetSelector::Display { id: id.clone() },
        }
    }

    #[must_use]
    pub fn kind(&self) -> (k: TargetKind)
        ensures
            k == self.kind_spec(),
    {
        match self {
            TargetSelector::Window { .. } => TargetKind::Window,
            TargetSelector::Display { .. } => TargetKind::Display,
        }
    }

    #[must_use]
    pub fn id(&self) -> (id: &str)
        ensures
            id@ == self.id_spec(),
    {
        match self {
            TargetSelector::Window { id } => id.as_str(),
            TargetSelector::Display { id } => id.as_str(),
        }
    }
}

#[derive(Debug, Clone, Copy, PartialEq, Eq, Structural)]
pub struct Bounds {
    pub x: i32,
    pub y: i32,
    pub width: u32,
    pub height: u32,
}

// ---------------------------------------------------------------------------
// Scale factors
// ---------------------------------------------------------------------------

/// Greatest common divisor by Euclid's algorithm.
pub open spec fn gcd(a: nat, b: nat) -> nat
    decreases b,
{
    if b == 0 {
        a
    } else {
        gcd(b, a % b)
    }
}

/// `x` clamped below at one.
pub open spec fn at_least_one(x: u32) -> u32 {
    if x == 0 {
        1
    } else {
        x
    }
}

pub proof fn lemma_gcd_divides(a: nat, b: nat)
    requires
        a > 0 || b > 0,
    ensures
        gcd(a, b) > 0,
        a % gcd(a, b) == 0,
        b % gcd(a, b) == 0,
        gcd(a, b) <= if a > b { a } else { b },
    decreases b,
{
    if b > 0 {
        let r = a % b;
        assert(r < b);
        lemma_gcd_divides(b, r);
        let g = gcd(b, r);
        assert(gcd(a, b) == g);
        // a = (a / b) * b + r, and g divides b and r.
        assert(a == (a / b) * b + r) by (nonlinear_arith)
            requires
                b > 0,
                r == a % b,
        ;
        assert(a % g == 0) by (nonlinear_arith)
            requires
                g > 0,
                b % g == 0,
                r % g == 0,
                a == (a / b) * b + r,
        {
            let kb = b / g;
            let kr = r / g;
            assert(b == kb * g);
            assert(r == kr * g);
            assert(a == ((a / b) * kb + kr) * g);
        }
        assert(g <= if a > b { a } else { b }) by {
            if r == 0 {
                assert(g == b);
            }
        }
    }
}

/// Any common divisor of `a` and `b` divides their gcd.
pub proof fn lemma_common_divisor_divides_gcd(a: nat, b: nat, d: nat)
    requires
        d > 0,
        a % d == 0,
        b % d == 0,
    ensures
        gcd(a, b) % d == 0,
    decreases b,
{
    if b > 0 {
        let r = a % b;
        assert(r % d == 0) by (nonlinear_arith)
            requires
                d > 0,
                b > 0,
                a % d == 0,
                b % d == 0,
                r == a % b,
        {
            let ka = a / d;
            let kb = b / d;
            assert(a == ka * d);
            assert(b == kb * d);
            assert(a == (a / b) * b + r);
            assert(r == (ka - (a / b) * kb) * d);
        }
        lemma_common_divisor_divides_gcd(b, r, d);
    }
}

/// Dividing both arguments by their gcd leaves no common factor.
pub proof fn lemma_gcd_of_quotients(a: nat, b: nat)
    requires
        a > 0,
        b > 0,
    ensures
        gcd(a / gcd(a, b), b / gcd(a, b)) == 1,
{
    lemma_gcd_divides(a, b);
    let g = gcd(a, b);
    let a1 = a / g;
    let b1 = b / g;
    assert(a1 > 0 && b1 > 0 && a == a1 * g && b == b1 * g) by (nonlinear_arith)
        requires
            g > 0,
            a > 0,
            b > 0,
            a % g == 0,
            b % g == 0,
            a1 == a / g,
            b1 == b / g,
    ;
    lemma_gcd_divides(a1, b1);
    let h = gcd(a1, b1);
    // g * h divides both a and b, hence divides g, so h == 1.
    assert(a % (g * h) == 0 && b % (g * h) == 0) by (nonlinear_arith)
        requires
            h > 0,
            g > 0,
            a1 % h == 0,
            b1 % h == 0,
            a == a1 * g,
            b == b1 * g,
    {
        let ka = a1 / h;
        let kb = b1 / h;
        assert(a1 == ka * h);
        assert(b1 == kb * h);
        assert(a == ka * (g * h));
        assert(b == kb * (g * h));
    }
    assert(g * h > 0) by (nonlinear_arith)
        requires
            g > 0,
            h > 0,
    ;
    lemma_common_divisor_divides_gcd(a, b, g * h);
    assert(h == 1) by (nonlinear_arith)
        requires
            g % (g * h) == 0,
            g > 0,
            h > 0,
    {
        if h > 1 {
            assert(g * h > g);
            assert(g % (g * h) == g);
        }
    }
}

#[derive(Debug, Clone, Copy, PartialEq, Eq, Structural)]
pub struct ScaleFactor {
    pub numerator: u32,
    pub denominator: u32,
}

impl ScaleFactor {
    /// The value `ScaleFactor::new` computes: both parts clamped to at least
    /// one, then divided by their greatest common divisor.
    pub open spec fn new_spec(numerator: u32, denominator: u32) -> ScaleFactor {
        let n = at_least_one(numerator) as nat;
        let d = at_least_one(denominator) as nat;
        let g = gcd(n, d);
        ScaleFactor { numerator: (n / g) as u32, denominator: (d / g) as u32 }
    }

    #[must_use]
    pub fn identity() -> (s: Self)
        ensures
            s.numerator == 1 && s.denominator == 1,
    {
        ScaleFactor { numerator: 1, denominator: 1 }
    }

    /// A scale factor reduced to its simplest form; zero parts are clamped
    /// to one first.
    #[must_use]
    pub fn new(numerator: u32, denominator: u32) -> (s: Self)
        ensures
            s == Self::new_spec(numerator, denominator),
    {
        let n: u32 = if numerator == 0 { 1 } else { numerator };
        let d: u32 = if denominator == 0 { 1 } else { denominator };
        let divisor = gcd_u32(n, d);
        proof {
            lemma_gcd_divides(n as nat, d as nat);
        }
        ScaleFactor { numerator: n / divisor, denominator: d / divisor }
    }
}

/// Euclid's algorithm on machine integers.
fn gcd_u32(a0: u32, b0: u32) -> (g: u32)
    ensures
        g == gcd(a0 as nat, b0 as nat),
{
    let mut a = a0;
    let mut b = b0;
    while b != 0
        invariant
            gcd(a as nat, b as nat) == gcd(a0 as nat, b0 as nat),
        decreases b,
    {
        let t = b;
        b = a % b;
        a = t;
    }
    a
}

/// `ScaleFactor::new` returns a fraction in lowest terms with both parts at
/// least one, equal in value to the clamped input.
pub proof fn lemma_scale_factor_reduced(numerator: u32, denominator: u32)
    ensures
        ({
            let s = ScaleFactor::new_spec(numerator, denominator);
            &&& s.numerator >= 1
            &&& s.denominator >= 1
            &&& gcd(s.numerator as nat, s.denominator as nat) == 1
            &&& s.numerator * at_least_one(denominator) == s.denominator * at_least_one(numerator)
        }),
{
    let n = at_least_one(numerator) as nat;
    let d = at_least_one(denominator) as nat;
    lemma_gcd_divides(n, d);
    lemma_gcd_of_quotients(n, d);
    let g = gcd(n, d);
    assert((n / g) * d == (d / g) * n && n / g >= 1 && d / g >= 1 && n / g <= n && d / g <= d)
        by (nonlinear_arith)
        requires
            g > 0,
            n > 0,
            d > 0,
            n % g == 0,
            d % g == 0,
    {
        let a = n / g;
        let b = d / g;
        assert(n == a * g);
        assert(d == b * g);
        assert(a * d == a * b * g);
        assert(b * n == b * a * g);
    }
}

/// Normalising an already normalised scale factor changes nothing.
pub proof fn lemma_scale_factor_idempotent(numerator: u32, denominator: u32)
    ensures
        ({
            let s = ScaleFactor::new_spec(numerator, denominator);
            ScaleFactor::new_spec(s.numerator, s.denominator) == s
        }),
{
    lemma_scale_factor_reduced(numerator, denominator);
    let s = ScaleFactor::new_spec(numerator, denominator);
    let n = s.numerator as nat;
    let d = s.denominator as nat;
    assert(at_least_one(s.numerator) == s.numerator);
    assert(at_least_one(s.denominator) == s.denominator);
    assert(n / 1 == n && d / 1 == d) by (nonlinear_arith);
}

#[derive(Debug, Clone, Copy, PartialEq, Eq, Structural)]
pub struct CapabilitySet {
    pub capture: bool,
    pub input: bool,
    pub audio: bool,
}

#[derive(Debug, Clone, PartialEq, Eq)]
pub struct TargetDescriptor {
    pub id: String,
    pub kind: TargetKind,
    pub name: String,
    pub title: Option<String>,
    pub bounds: Bounds,
    pub scale_factor: ScaleFactor,
    pub capabilities: CapabilitySet,
    pub diagnostics: Vec<TargetCapabilityDiagnostic>,
    pub app_name: Option<String>,
    pub process_id: Option<u32>,
}

// ---------------------------------------------------------------------------
// Identifier validation
// ---------------------------------------------------------------------------

pub open spec fn kind_label(kind: TargetKind) -> Seq<char> {
    match kind {
        TargetKind::Window => "window"@,
        TargetKind::Display => "display"@,
        TargetKind::AudioSource => "audio source"@,
    }
}

/// An identifier that is empty after trimming whitespace is rejected.
pub open spec fn identifier_rejected(id: Seq<char>) -> bool {
    trim(id).len() == 0
}

/// The failure for a blank identifier of the given kind, with `code`.
pub open spec fn is_blank_identifier_error(e: TendrilError, kind: TargetKind, code: Seq<char>) -> bool {
    is_invalid(e, code, "id"@, kind_label(kind) + " identifier cannot be empty"@)
}

/// Rejects a blank identifier, naming the offending field `id`.
fn validate_identifier(id: &str, kind: TargetKind, code: &str) -> (r: Result<(), TendrilError>)
    ensures
        r is Err <==> identifier_rejected(id@),
        r matches Err(e) ==> is_blank_identifier_error(e, kind, code@),
{
    let cs = text::chars_of(id);
    if text::is_blank(cs.as_slice()) {
        let mut message = match kind {
            TargetKind::Window => owned("window"),
            TargetKind::Display => owned("display"),
            TargetKind::AudioSource => owned("audio source"),
        };
        text::push_str(&mut message, " identifier cannot be empty");
        Err(TendrilError::invalid(message, code, "id"))
    } else {
        Ok(())
    }
}

// ---------------------------------------------------------------------------
// Requests and their validation
// ---------------------------------------------------------------------------

#[derive(Debug, Clone, Copy, PartialEq, Eq, Structural)]
pub struct ListInput {
    pub include_windows: bool,
    pub include_displays: bool,
    pub include_audio_sources: bool,
}

impl Default for ListInput {
    fn default() -> (r: Self)
        ensures
            r.include_windows && r.include_displays && !r.include_audio_sources,
    {
        ListInput { include_windows: true, include_displays: true, include_audio_sources: false }
    }
}

impl ListInput {
    /// At least one class of target must be requested.
    pub fn validate(&self) -> (r: Result<(), TendrilError>)
        ensures
            r is Ok <==> (self.include_windows || self.include_displays || self.include_audio_sources),
            r matches Err(e) ==> is_invalid(
                e,
                "invalid_list_input"@,
                "include_windows"@,
                "at least one target class must be requested"@,
            ),
    {
        if self.include_windows || self.include_displays || self.include_audio_sources {
            Ok(())
        } else {
            Err(TendrilError::invalid(
                owned("at least one target class must be requested"),
                "invalid_list_input",
                "include_windows",
            ))
        }
    }
}

#[derive(Debug, Clone, PartialEq, Eq)]
pub struct ListOutput {
    pub adapter: AdapterInfo,
    pub permissions: Vec<PermissionStatus>,
    pub targets: Vec<TargetDescriptor>,
    /// Video capture devices found beside the windows and displays.
    pub cameras: Vec<crate::camera::CameraDescriptor>,
}

#[derive(Debug, Clone, PartialEq, Eq)]
pub struct ElementListInput {
    pub target: Option<TargetSelector>,
    pub include_offscreen: bool,
}

impl ElementListInput {
    /// A given target must have a non-blank identifier.
    pub fn validate(&self) -> (r: Result<(), TendrilError>)
        ensures
            r is Err <==> (self.target matches Some(t) && identifier_rejected(t.id_spec())),
            r matches Err(e) ==> (self.target matches Some(t) && is_blank_identifier_error(
                e,
                t.kind_spec(),
                "invalid_list_elements_input"@,
            )),
    {
        match &self.target {
            Some(target) => validate_identifier(target.id(), target.kind(), "invalid_list_elements_input"),
            None => Ok(()),
        }
    }
}

#[derive(Debug, Clone, PartialEq, Eq)]
pub struct ElementDescriptor {
    pub id: String,
    pub role: String,
    pub name: String,
    pub description: Option<String>,
    pub value: Option<String>,
    pub bounds: Option<Bounds>,
    pub target: Option<TargetSelector>,
    pub path: Vec<String>,
    pub actions: Vec<String>,
    pub app_name: Option<String>,
    pub process_id: Option<u32>,
}

#[derive(Debug, Clone, PartialEq, Eq)]
pub struct ElementListOutput {
    pub adapter: AdapterInfo,
    pub target: Option<TargetSelector>,
    pub elements: Vec<ElementDescriptor>,
    pub notes: Vec<String>,
}

#[derive(Debug, Clone, PartialEq, Eq)]
pub struct CaptureInput {
    pub target: TargetSelector,
    pub max_width: Option<u32>,
    pub max_height: Option<u32>,
    pub format: ImageFormat,
    pub compression: u8,
    /// Per-call deadline in milliseconds for backend capture work; `None`
    /// means the platform default.
    pub timeout_ms: Option<u64>,
}

impl CaptureInput {
    /// Checks limits, compression, target identifier and timeout, in that order.
    pub fn validate(&self) -> (r: Result<(), TendrilError>)
        ensures
            r is Ok <==> (self.max_width != Some(0u32) && self.max_height != Some(0u32)
                && self.compression <= 100 && !identifier_rejected(self.target.id_spec())
                && self.timeout_ms != Some(0u64)),
            r matches Err(e) ==> {
                if self.max_width == Some(0u32) {
                    is_invalid(e, "invalid_capture_input"@, "max_width"@, "max_width must be greater than zero"@)
                } else if self.max_height == Some(0u32) {
                    is_invalid(e, "invalid_capture_input"@, "max_height"@, "max_height must be greater than zero"@)
                } else if self.compression > 100 {
                    is_invalid(e, "invalid_capture_input"@, "compression"@, "compression must be between 0 and 100"@)
                } else if identifier_rejected(self.target.id_spec()) {
                    is_blank_identifier_error(e, self.target.kind_spec(), "invalid_capture_input"@)
                } else {
                    is_invalid(e, "invalid_capture_input"@, "timeout_ms"@, "timeout_ms must be greater than zero"@)
                }
            },
    {
        if self.max_width == Some(0u32) {
            return Err(TendrilError::invalid(
                owned("max_width must be greater than zero"),
                "invalid_capture_input",
                "max_width",
            ));
        }
        if self.max_height == Some(0u32) {
            return Err(TendrilError::invalid(
                owned("max_height must be greater than zero"),
                "invalid_capture_input",
                "max_height",
            ));
        }
        if self.compression > 100 {
            return Err(TendrilError::invalid(
                owned("compression must be between 0 and 100"),
                "invalid_capture_input",
                "compression",
            ));
        }
        validate_identifier(self.target.id(), self.target.kind(), "invalid_capture_input")?;
        if self.timeout_ms == Some(0u64) {
            return Err(TendrilError::invalid(
                owned("timeout_ms must be greater than zero"),
                "invalid_capture_input",
                "timeout_ms",
            ));
        }
        Ok(())
    }
}

#[derive(Debug, Clone, Copy, PartialEq, Eq, Structural)]
pub struct CoordinateTransform {
    pub x_numerator: u32,
    pub x_denominator: u32,
    pub y_numerator: u32,
    pub y_denominator: u32,
}

impl CoordinateTransform {
    #[must_use]
    pub fn identity() -> (t: Self)
        ensures
            t.x_numerator == 1 && t.x_denominator == 1 && t.y_numerator == 1 && t.y_denominator == 1,
    {
        CoordinateTransform { x_numerator: 1, x_denominator: 1, y_numerator: 1, y_denominator: 1 }
    }
}

#[derive(Debug, Clone, PartialEq, Eq)]
pub struct CaptureOutput {
    pub adapter: AdapterInfo,
    pub target: TargetSelector,
    pub original_bounds: Bounds,
    pub output_bounds: Bounds,
    pub source_to_output: CoordinateTransform,
    pub output_to_source: CoordinateTransform,
    pub resized: bool,
    pub format: ImageFormat,
    pub compression: u8,
    pub media_type: String,
    pub image_base64: String,
    pub captured_at: String,
}

#[derive(Debug, Clone, Copy, PartialEq, Eq, Hash, Structural)]
pub enum ModifierKey {
    Ctrl,
    Alt,
    Shift,
    Meta,
}

#[derive(Debug, Clone, Copy, PartialEq, Eq, Structural)]
pub enum MouseButton {
    Left,
    Right,
    Middle,
}

/// Maximum wheel ticks accepted in a single typed scroll action.
pub const MAX_SCROLL_TICKS: u32 = 120;

#[derive(Debug, Clone, PartialEq, Eq)]
pub enum InputAction {
    KeyTap { key: String },
    Hold { modifier: ModifierKey },
    Release { modifier: ModifierKey },
    Send { text: String },
    Wait { duration_ms: u64 },
    Click { button: MouseButton, x: i32, y: i32 },
    /// Move the pointer to source-space coordinates without pressing a button.
    PointerMove { x: i32, y: i32 },
    /// Double-click the primary mouse button at source-space coordinates.
    DoubleClick { x: i32, y: i32 },
    Drag { x0: i32, y0: i32, x1: i32, y1: i32 },
    /// Scroll the wheel by `dy` ticks (positive is down) under a point.
    Scroll { x: i32, y: i32, dy: i32 },
    /// Activate an element returned by `tendril list-elements`.
    ElementClick { id: String },
}

/// Why an action is rejected, if it is.
pub open spec fn action_error(a: InputAction) -> Option<Seq<char>> {
    match a {
        InputAction::KeyTap { key } => if trim(key@).len() == 0 {
            Some("key tap requires a non-empty key"@)
        } else {
            None
        },
        InputAction::Send { text } => if text@.len() == 0 {
            Some("send action requires a non-empty string"@)
        } else {
            None
        },
        InputAction::Wait { duration_ms } => if duration_ms == 0 {
            Some("wait action duration must be greater than zero"@)
        } else {
            None
        },
        InputAction::Scroll { dy, .. } => if dy == 0 {
            Some("scroll action dy must be non-zero"@)
        } else if dy > 120 || dy < -120 {
            Some("scroll action dy must be between -120 and 120 wheel ticks"@)
        } else {
            None
        },
        InputAction::ElementClick { id } => if trim(id@).len() == 0 {
            Some("element click action requires a non-empty element id"@)
        } else {
            None
        },
        _ => None,
    }
}

impl InputAction {
    /// Rejects empty keys, texts and element ids, zero waits, and scroll
    /// deltas that are zero or beyond the tick limit.
    pub fn validate(&self) -> (r: Result<(), TendrilError>)
        ensures
            r is Ok <==> action_error(*self) is None,
            r matches Err(e) ==> (action_error(*self) matches Some(m) && is_invalid(
                e,
                "invalid_run_input"@,
                "actions"@,
                m,
            )),
    {
        let message: Option<&str> = match self {
            InputAction::KeyTap { key } => {
                if text::is_blank(text::chars_of(key.as_str()).as_slice()) {
                    Some("key tap requires a non-empty key")
                } else {
                    None
                }
            },
            InputAction::Send { text } => {
                if text::chars_of(text.as_str()).len() == 0 {
                    Some("send action requires a non-empty string")
                } else {
                    None
                }
            },
            InputAction::Wait { duration_ms } => {
                if *duration_ms == 0 {
                    Some("wait action duration must be greater than zero")
                } else {
                    None
                }
            },
            InputAction::Scroll { dy, .. } => {
                if *dy == 0 {
                    Some("scroll action dy must be non-zero")
                } else if *dy > 120 || *dy < -120 {
                    Some("scroll action dy must be between -120 and 120 wheel ticks")
                } else {
                    None
                }
            },
            InputAction::ElementClick { id } => {
                if text::is_blank(text::chars_of(id.as_str()).as_slice()) {
                    Some("element click action requires a non-empty element id")
                } else {
                    None
                }
            },
            _ => None,
        };
        match message {
            Some(m) => Err(TendrilError::invalid(owned(m), "invalid_run_input", "actions")),
            None => Ok(()),
        }
    }
}

#[derive(Debug, Clone, PartialEq, Eq)]
pub enum RunInputPayload {
    Text { text: String },
    Dsl { sequence: String },
    Actions { actions: Vec<InputAction> },
}

#[derive(Debug, Clone, PartialEq, Eq)]
pub struct RunInput {
    pub target: TargetSelector,
    pub payload: RunInputPayload,
    /// Restore the previously focused window after dispatching input.
    pub restore_focus: bool,
}

/// Whether a run input passes validation: a usable target identifier and a
/// non-empty payload whose actions are all accepted.
pub open spec fn run_input_ok(i: RunInput) -> bool {
    &&& !identifier_rejected(i.target.id_spec())
    &&& match i.payload {
        RunInputPayload::Text { text } => text@.len() > 0,
        RunInputPayload::Dsl { sequence } => trim(sequence@).len() > 0,
        RunInputPayload::Actions { actions } => actions@.len() > 0 && first_invalid_action(actions@) is None,
    }
}

/// The index of the first rejected action, if any.
pub open spec fn first_invalid_action(actions: Seq<InputAction>) -> Option<int> {
    if exists|i: int| 0 <= i < actions.len() && action_error(actions[i]) is Some {
        Some(choose|i: int| 0 <= i < actions.len() && action_error(actions[i]) is Some
            && forall|j: int| 0 <= j < i ==> action_error(#[trigger] actions[j]) is None)
    } else {
        None
    }
}

impl RunInput {
    /// Checks the target identifier, then the payload: text must be
    /// non-empty, a DSL sequence non-blank, and an action list non-empty with
    /// every action valid. A rejected action is reported with its index.
    pub fn validate(&self) -> (r: Result<(), TendrilError>)
        ensures
            r is Ok <==> run_input_ok(*self),
            identifier_rejected(self.target.id_spec()) ==> (r matches Err(e) && is_blank_identifier_error(
                e,
                self.target.kind_spec(),
                "invalid_run_input"@,
            )),
            !identifier_rejected(self.target.id_spec()) ==> match self.payload {
                RunInputPayload::Text { text } => if text@.len() == 0 {
                    (r matches Err(e) && is_invalid(e, "invalid_run_input"@, "text"@, "text input cannot be empty"@))
                } else {
                    r is Ok
                },
                RunInputPayload::Dsl { sequence } => if trim(sequence@).len() == 0 {
                    (r matches Err(e) && is_invalid(e, "invalid_run_input"@, "sequence"@, "dsl sequence cannot be empty"@))
                } else {
                    r is Ok
                },
                RunInputPayload::Actions { actions } => if actions@.len() == 0 {
                    (r matches Err(e) && is_invalid(e, "invalid_run_input"@, "actions"@, "actions cannot be empty"@))
                } else {
                    match first_invalid_action(actions@) {
                        None => r is Ok,
                        Some(i) => (r matches Err(e) && (action_error(actions@[i]) matches Some(m) && is_invalid(
                            e,
                            "invalid_run_input"@,
                            "actions"@,
                            m,
                        )) && e.detail_spec("action_index"@) == Some(DetailValue::Number(i as u64))
                            && e.detail_spec("action_number"@) == Some(DetailValue::Number((i + 1) as u64))),
                    }
                },
            },
    {
        validate_identifier(self.target.id(), self.target.kind(), "invalid_run_input")?;
        match &self.payload {
            RunInputPayload::Text { text } => {
                if text::chars_of(text.as_str()).len() == 0 {
                    Err(TendrilError::invalid(owned("text input cannot be empty"), "invalid_run_input", "text"))
                } else {
                    Ok(())
                }
            },
            RunInputPayload::Dsl { sequence } => {
                if text::is_blank(text::chars_of(sequence.as_str()).as_slice()) {
                    Err(TendrilError::invalid(
                        owned("dsl sequence cannot be empty"),
                        "invalid_run_input",
                        "sequence",
                    ))
                } else {
                    Ok(())
                }
            },
            RunInputPayload::Actions { actions } => {
                if actions.len() == 0 {
                    return Err(TendrilError::invalid(
                        owned("actions cannot be empty"),
                        "invalid_run_input",
                        "actions",
                    ));
                }
                match first_invalid(actions) {
                    None => Ok(()),
                    Some(index) => {
                        let error = match actions[index].validate() {
                            Err(error) => error,
                            Ok(()) => {
                                proof {
                                    assert(false);
                                }
                                TendrilError::validation(owned(""))
                            },
                        };
                        proof {
                            reveal_strlit("field");
                            reveal_strlit("action_index");
                            reveal_strlit("action_number");
                            assert("field"@.len() != "action_index"@.len());
                            assert("field"@.len() != "action_number"@.len());
                            assert("action_index"@.len() != "action_number"@.len());
                        }
                        Err(error.with_detail_entry("action_index", DetailValue::Number(index as u64))
                            .with_detail_entry("action_number", DetailValue::Number(index as u64 + 1)))
                    },
                }
            },
        }
    }
}

/// The index of the first action that fails validation.
fn first_invalid(actions: &Vec<InputAction>) -> (r: Option<usize>)
    ensures
        match r {
            Some(i) => first_invalid_action(actions@) == Some(i as int) && i < actions@.len()
                && action_error(actions@[i as int]) is Some,
            None => first_invalid_action(actions@) is None,
        },
{
    let mut index: usize = 0;
    while index < actions.len()
        invariant
            index <= actions@.len(),
            forall|j: int| 0 <= j < index ==> action_error(#[trigger] actions@[j]) is None,
        decreases actions.len() - index,
    {
        if actions[index].validate().is_err() {
            proof {
                let i = index as int;
                assert(0 <= i < actions@.len() && action_error(actions@[i]) is Some);
                let k = choose|k: int| 0 <= k < actions@.len() && action_error(actions@[k]) is Some
                    && forall|j: int| 0 <= j < k ==> action_error(#[trigger] actions@[j]) is None;
                if k < i {
                } else if k > i {
                    assert(action_error(actions@[i]) is None);
                }
            }
            return Some(index);
        }
        index += 1;
    }
    proof {
        if exists|i: int| 0 <= i < actions@.len() && action_error(actions@[i]) is Some {
            let k = choose|i: int| 0 <= i < actions@.len() && action_error(actions@[i]) is Some;
            assert(action_error(actions@[k]) is None);
        }
    }
    None
}

#[derive(Debug, Clone, PartialEq, Eq)]
pub struct FocusSnapshot {
    pub id: String,
    pub kind: String,
    pub name: Option<String>,
}

#[derive(Debug, Clone, PartialEq, Eq)]
pub struct RunOutput {
    pub adapter: AdapterInfo,
    pub target: TargetSelector,
    pub focus_required: bool,
    pub focus_transferred: bool,
    pub action_count: usize,
    pub focused_target: Option<String>,
    pub previous_focus: Option<FocusSnapshot>,
    pub focus_restored: bool,
    pub pointer_restored: bool,
    pub restore_error: Option<String>,
    pub notes: Vec<String>,
    /// Host-local execution lock/queue metadata for this run invocation.
    pub execution_lock: Option<ExecutionLockReport>,
}

#[derive(Debug, Clone, Copy, PartialEq, Eq, Structural)]
pub enum AudioSourceKind {
    System,
    Microphone,
    Device,
}

#[derive(Debug, Clone, PartialEq, Eq)]
pub struct AudioSourceSelector {
    pub kind: AudioSourceKind,
    pub id: Option<String>,
}

#[derive(Debug, Clone, Copy, PartialEq, Eq, Structural)]
pub enum AudioFormat {
    Wav,
    Flac,
    Opus,
}

#[derive(Debug, Clone, PartialEq, Eq)]
pub struct ListenInput {
    pub source: AudioSourceSelector,
    pub duration_ms: u64,
    pub format: AudioFormat,
}

impl Default for ListenInput {
    fn default() -> (r: Self)
        ensures
            r.source.kind == AudioSourceKind::System,
            r.source.id is None,
            r.duration_ms == 5000,
            r.format == AudioFormat::Wav,
    {
        ListenInput {
            source: AudioSourceSelector { kind: AudioSourceKind::System, id: None },
            duration_ms: 5_000,
            format: AudioFormat::Wav,
        }
    }
}

/// A device source needs a non-empty identifier.
pub open spec fn device_id_missing(source: AudioSourceSelector) -> bool {
    source.kind == AudioSourceKind::Device && match source.id {
        Some(id) => id@.len() == 0,
        None => true,
    }
}

impl ListenInput {
    pub fn validate(&self) -> (r: Result<(), TendrilError>)
        ensures
            r is Ok <==> (self.duration_ms != 0 && !device_id_missing(self.source)),
            r matches Err(e) ==> if self.duration_ms == 0 {
                is_invalid(e, "invalid_listen_input"@, "duration_ms"@, "duration_ms must be greater than zero"@)
            } else {
                is_invalid(
                    e,
                    "invalid_listen_input"@,
                    "source.id"@,
                    "device audio capture requires a device identifier"@,
                )
            },
    {
        if self.duration_ms == 0 {
            return Err(TendrilError::invalid(
                owned("duration_ms must be greater than zero"),
                "invalid_listen_input",
                "duration_ms",
            ));
        }
        let missing = match self.source.kind {
            AudioSourceKind::Device => match &self.source.id {
                Some(id) => text::chars_of(id.as_str()).len() == 0,
                None => true,
            },
            _ => false,
        };
        if missing {
            return Err(TendrilError::invalid(
                owned("device audio capture requires a device identifier"),
                "invalid_listen_input",
                "source.id",
            ));
        }
        Ok(())
    }
}

#[derive(Debug, Clone, PartialEq, Eq)]
pub struct ListenOutput {
    pub source: AudioSourceSelector,
    pub duration_ms: u64,
    pub format: AudioFormat,
    pub channels: u8,
}

#[derive(Debug, Clone, Copy, PartialEq, Eq, Structural)]
pub enum ShellKind {
    Bash,
    Zsh,
    Fish,
    PowerShell,
}

#[derive(Debug, Clone, PartialEq, Eq)]
pub struct AliasInput {
    pub target: TargetSelector,
    pub shell: ShellKind,
    pub name: String,
}

/// Reserved words of bash and zsh that cannot name a shell function.
pub open spec fn shell_reserved_words() -> Seq<Seq<char>> {
    seq![
        "if"@, "then"@, "else"@, "elif"@, "fi"@, "for"@, "while"@, "until"@, "do"@, "done"@,
        "case"@, "esac"@, "function"@, "select"@, "in"@, "time"@, "coproc"@,
    ]
}

pub open spec fn alias_char_ok(c: char) -> bool {
    is_ascii_alnum(c) || c == '_' || c == '-'
}

fn is_shell_reserved_word(name: &[char]) -> (r: bool)
    ensures
        r == shell_reserved_words().contains(name@),
{
    let words: [&str; 17] = [
        "if", "then", "else", "elif", "fi", "for", "while", "until", "do", "done", "case", "esac",
        "function", "select", "in", "time", "coproc",
    ];
    let ghost spec_words = shell_reserved_words();
    proof {
        assert(spec_words.len() == 17);
    }
    let mut i: usize = 0;
    while i < 17
        invariant
            i <= 17,
            spec_words == shell_reserved_words(),
            words@.len() == 17,
            forall|j: int| 0 <= j < 17 ==> (#[trigger] words@[j])@ == spec_words[j],
            forall|j: int| 0 <= j < i ==> spec_words[j] != name@,
        decreases 17 - i,
    {
        if text::is(name, words[i]) {
            proof {
                assert(spec_words[i as int] == name@);
            }
            return true;
        }
        i += 1;
    }
    proof {
        if spec_words.contains(name@) {
            let k = choose|k: int| 0 <= k < spec_words.len() && spec_words[k] == name@;
            assert(spec_words[k] != name@);
        }
    }
    false
}

/// Whether an alias input passes validation.
pub open spec fn alias_input_ok(i: AliasInput) -> bool {
    &&& !identifier_rejected(i.target.id_spec())
    &&& i.name@.len() > 0
    &&& forall|k: int| 0 <= k < i.name@.len() ==> alias_char_ok(#[trigger] i.name@[k])
    &&& !shell_reserved_words().contains(i.name@)
}

impl AliasInput {
    /// The target identifier must be non-blank and the name a non-empty run
    /// of ASCII letters, digits, `_` and `-` that is no shell reserved word.
    pub fn validate(&self) -> (r: Result<(), TendrilError>)
        ensures
            r is Ok <==> alias_input_ok(*self),
            r matches Err(e) ==> if identifier_rejected(self.target.id_spec()) {
                is_blank_identifier_error(e, self.target.kind_spec(), "invalid_alias_input"@)
            } else if self.name@.len() == 0 {
                is_invalid(e, "invalid_alias_input"@, "name"@, "alias name cannot be empty"@)
            } else if !(forall|i: int| 0 <= i < self.name@.len() ==> alias_char_ok(#[trigger] self.name@[i])) {
                is_invalid(
                    e,
                    "invalid_alias_input"@,
                    "name"@,
                    "alias name may only contain ASCII letters, digits, underscore, or hyphen"@,
                )
            } else {
                is_invalid(
                    e,
                    "invalid_alias_input"@,
                    "name"@,
                    "alias name '"@ + self.name@
                        + "' is a shell reserved word and cannot be used as a function name"@,
                )
            },
    {
        validate_identifier(self.target.id(), self.target.kind(), "invalid_alias_input")?;
        let name = text::chars_of(self.name.as_str());
        if name.len() == 0 {
            return Err(TendrilError::invalid(owned("alias name cannot be empty"), "invalid_alias_input", "name"));
        }
        let mut i: usize = 0;
        while i < name.len()
            invariant
                i <= name@.len(),
                name@ == self.name@,
                name@.len() > 0,
                !identifier_rejected(self.target.id_spec()),
                forall|j: int| 0 <= j < i ==> alias_char_ok(#[trigger] name@[j]),
            decreases name.len() - i,
        {
            let c = name[i];
            if !(text::is_alnum(c) || c == '_' || c == '-') {
                assert(!alias_char_ok(self.name@[i as int]));
                return Err(TendrilError::invalid(
                    owned("alias name may only contain ASCII letters, digits, underscore, or hyphen"),
                    "invalid_alias_input",
                    "name",
                ));
            }
            i += 1;
        }
        if is_shell_reserved_word(name.as_slice()) {
            let mut message = owned("alias name '");
            text::push_str(&mut message, self.name.as_str());
            text::push_str(&mut message, "' is a shell reserved word and cannot be used as a function name");
            return Err(TendrilError::invalid(message, "invalid_alias_input", "name"));
        }
        Ok(())
    }
}

#[derive(Debug, Clone, PartialEq, Eq)]
pub struct AliasOutput {
    pub shell: ShellKind,
    pub name: String,
    pub command: String,
    pub argv: Vec<String>,
    pub shell_code: String,
    pub target: TargetSelector,
}

} // verus!
