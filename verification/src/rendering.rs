//! Human renderings of the `list`, `list-elements` and `listen` outputs.
use vstd::prelude::*;

use crate::camera::CameraDescriptor;
use crate::model::{Bounds, ElementDescriptor, ElementListOutput, ListOutput, TargetDescriptor, TargetKind};
use crate::platform::{platform_name_spec, session_name_spec, AdapterInfo, Capability, TargetCapabilityDiagnostic};
use crate::text::{self, debug_text, decimal, joined, signed_decimal, strings_view};

verus! {

/// The name `{:?}` prints for a target kind.
pub open spec fn target_kind_name(kind: TargetKind) -> Seq<char> {
    match kind {
        TargetKind::Window => "Window"@,
        TargetKind::Display => "Display"@,
        TargetKind::AudioSource => "AudioSource"@,
    }
}

fn target_kind_label(kind: TargetKind) -> (r: &'static str)
    ensures
        r@ == target_kind_name(kind),
{
    match kind {
        TargetKind::Window => "Window",
        TargetKind::Display => "Display",
        TargetKind::AudioSource => "AudioSource",
    }
}

/// `true` or `false`.
pub open spec fn bool_text(b: bool) -> Seq<char> {
    if b {
        "true"@
    } else {
        "false"@
    }
}

fn bool_label(b: bool) -> (r: &'static str)
    ensures
        r@ == bool_text(b),
{
    if b {
        "true"
    } else {
        "false"
    }
}

/// `WIDTHxHEIGHT+X+Y`.
pub open spec fn geometry_text(b: Bounds) -> Seq<char> {
    decimal(b.width as nat) + "x"@ + decimal(b.height as nat) + "+"@ + signed_decimal(b.x as int) + "+"@
        + signed_decimal(b.y as int)
}

fn push_geometry(r: &mut String, b: &Bounds)
    ensures
        final(r)@ == old(r)@ + geometry_text(*b),
{
    let ghost start = r@;
    text::push_str(r, text::format_u64(b.width as u64).as_str());
    text::push_str(r, "x");
    text::push_str(r, text::format_u64(b.height as u64).as_str());
    text::push_str(r, "+");
    text::push_str(r, text::format_i64(b.x as i64).as_str());
    text::push_str(r, "+");
    text::push_str(r, text::format_i64(b.y as i64).as_str());
    assert(r@ =~= start + geometry_text(*b));
}

/// `platform: Linux / X11`, as the listings begin.
pub open spec fn platform_session_line(adapter: AdapterInfo) -> Seq<char> {
    "platform: "@ + platform_name_spec(adapter.platform) + " / "@ + session_name_spec(adapter.session) + "\n"@
}

fn push_platform_session(r: &mut String, adapter: &AdapterInfo)
    ensures
        final(r)@ == old(r)@ + platform_session_line(*adapter),
{
    let ghost start = r@;
    text::push_str(r, "platform: ");
    text::push_str(r, crate::platform::platform_name(adapter.platform));
    text::push_str(r, " / ");
    text::push_str(r, crate::platform::session_name(adapter.session));
    text::push_str(r, "\n");
    assert(r@ =~= start + platform_session_line(*adapter));
}

// ---------------------------------------------------------------------------
// list
// ---------------------------------------------------------------------------

/// Whether a diagnostic is about capturing a display or a window.
pub open spec fn is_capture_diagnostic(d: TargetCapabilityDiagnostic) -> bool {
    d.capability == Capability::DisplayCapture || d.capability == Capability::WindowCapture
}

/// The first capture diagnostic of a target.
pub open spec fn first_capture_diagnostic(ds: Seq<TargetCapabilityDiagnostic>) -> Option<TargetCapabilityDiagnostic>
    decreases ds.len(),
{
    if ds.len() == 0 {
        None
    } else if is_capture_diagnostic(ds[0]) {
        Some(ds[0])
    } else {
        first_capture_diagnostic(ds.drop_first())
    }
}

/// `" title=\"..\""` where a title is given.
pub open spec fn title_suffix(title: Option<String>) -> Seq<char> {
    match title {
        Some(t) => " title="@ + debug_text(t@),
        None => seq![],
    }
}

/// `" LABEL=VALUE"` where a value is given.
pub open spec fn labelled_suffix(label: Seq<char>, value: Option<String>) -> Seq<char> {
    match value {
        Some(v) => label + v@,
        None => seq![],
    }
}

/// `" diagnostic=CODE: MESSAGE"` for the first capture diagnostic.
pub open spec fn diagnostic_suffix(ds: Seq<TargetCapabilityDiagnostic>) -> Seq<char> {
    match first_capture_diagnostic(ds) {
        Some(d) => " diagnostic="@ + d.code@ + ": "@ + d.message@,
        None => seq![],
    }
}

/// One target's line in the listing.
pub open spec fn target_line(t: TargetDescriptor) -> Seq<char> {
    target_head(t) + title_suffix(t.title) + labelled_suffix(" app="@, t.app_name) + diagnostic_suffix(t.diagnostics@) + "\n"@
}

pub open spec fn target_lines(ts: Seq<TargetDescriptor>) -> Seq<char>
    decreases ts.len(),
{
    if ts.len() == 0 {
        seq![]
    } else {
        target_lines(ts.drop_last()) + target_line(ts.last())
    }
}

/// One camera's line in the listing.
pub open spec fn camera_line(c: CameraDescriptor) -> Seq<char> {
    "- "@ + c.id@ + " name="@ + c.name@ + labelled_suffix(" model="@, c.model_id) + labelled_suffix(
        " unique_id="@,
        c.unique_id,
    ) + "\n"@
}

pub open spec fn camera_lines(cs: Seq<CameraDescriptor>) -> Seq<char>
    decreases cs.len(),
{
    if cs.len() == 0 {
        seq![]
    } else {
        camera_lines(cs.drop_last()) + camera_line(cs.last())
    }
}

/// The human listing: the platform, the number of permissions, a line per
/// target and, when there are any, a line per camera.
pub open spec fn list_text(output: ListOutput) -> Seq<char> {
    platform_session_line(output.adapter) + "permissions: "@ + decimal(output.permissions@.len()) + "\ntargets:\n"@
        + target_lines(output.targets@) + if output.cameras@.len() == 0 {
        seq![]
    } else {
        "cameras:\n"@ + camera_lines(output.cameras@)
    }
}

fn find_capture_diagnostic(ds: &Vec<TargetCapabilityDiagnostic>) -> (r: Option<usize>)
    ensures
        match first_capture_diagnostic(ds@) {
            Some(d) => r matches Some(i) && i < ds@.len() && ds@[i as int] == d,
            None => r is None,
        },
{
    let mut i: usize = 0;
    assert(ds@.skip(0) =~= ds@);
    while i < ds.len()
        invariant
            i <= ds@.len(),
            first_capture_diagnostic(ds@) == first_capture_diagnostic(ds@.skip(i as int)),
        decreases ds.len() - i,
    {
        proof {
            assert(ds@.skip(i as int)[0] == ds@[i as int]);
            assert(ds@.skip(i as int).drop_first() =~= ds@.skip(i + 1));
        }
        if ds[i].capability == Capability::DisplayCapture || ds[i].capability == Capability::WindowCapture {
            return Some(i);
        }
        i += 1;
    }
    assert(ds@.skip(i as int).len() == 0);
    None
}

fn push_labelled(r: &mut String, label: &str, value: &Option<String>)
    ensures
        final(r)@ == old(r)@ + labelled_suffix(label@, *value),
{
    match value {
        Some(v) => {
            text::push_str(r, label);
            text::push_str(r, v.as_str());
        },
        None => {
            assert(r@ =~= old(r)@ + labelled_suffix(label@, *value));
        },
    }
}

fn push_title(r: &mut String, title: &Option<String>)
    ensures
        final(r)@ == old(r)@ + title_suffix(*title),
{
    match title {
        Some(t) => {
            text::push_str(r, " title=");
            text::push_str(r, text::debug_quoted(t.as_str()).as_str());
        },
        None => {
            assert(r@ =~= old(r)@ + title_suffix(*title));
        },
    }
}

fn push_diagnostic(r: &mut String, ds: &Vec<TargetCapabilityDiagnostic>)
    ensures
        final(r)@ == old(r)@ + diagnostic_suffix(ds@),
{
    match find_capture_diagnostic(ds) {
        Some(i) => {
            let ghost start = r@;
            text::push_str(r, " diagnostic=");
            text::push_str(r, ds[i].code.as_str());
            text::push_str(r, ": ");
            text::push_str(r, ds[i].message.as_str());
            assert(r@ =~= start + diagnostic_suffix(ds@));
        },
        None => {
            assert(r@ =~= old(r)@ + diagnostic_suffix(ds@));
        },
    }
}

/// A target's kind, identifier, name and geometry.
pub open spec fn target_ident(t: TargetDescriptor) -> Seq<char> {
    "- "@ + target_kind_name(t.kind) + " "@ + t.id@ + " "@ + t.name@ + " "@ + geometry_text(t.bounds)
}

/// A target's scale and capabilities.
pub open spec fn target_caps(t: TargetDescriptor) -> Seq<char> {
    " scale="@ + decimal(t.scale_factor.numerator as nat) + "/"@ + decimal(t.scale_factor.denominator as nat)
        + " capture="@ + bool_text(t.capabilities.capture) + ", input="@ + bool_text(t.capabilities.input)
}

/// A target line up to its capabilities.
pub open spec fn target_head(t: TargetDescriptor) -> Seq<char> {
    target_ident(t) + target_caps(t)
}

fn push_target_ident(r: &mut String, t: &TargetDescriptor)
    ensures
        final(r)@ == old(r)@ + target_ident(*t),
{
    let ghost start = r@;
    text::push_str(r, "- ");
    text::push_str(r, target_kind_label(t.kind));
    text::push_str(r, " ");
    text::push_str(r, t.id.as_str());
    text::push_str(r, " ");
    text::push_str(r, t.name.as_str());
    text::push_str(r, " ");
    push_geometry(r, &t.bounds);
    assert(r@ =~= start + target_ident(*t));
}

fn push_target_caps(r: &mut String, t: &TargetDescriptor)
    ensures
        final(r)@ == old(r)@ + target_caps(*t),
{
    let ghost start = r@;
    let num = text::format_u64(t.scale_factor.numerator as u64);
    let den = text::format_u64(t.scale_factor.denominator as u64);
    text::push_str(r, " scale=");
    text::push_str(r, num.as_str());
    text::push_str(r, "/");
    text::push_str(r, den.as_str());
    text::push_str(r, " capture=");
    text::push_str(r, bool_label(t.capabilities.capture));
    text::push_str(r, ", input=");
    text::push_str(r, bool_label(t.capabilities.input));
    assert(r@ =~= start + target_caps(*t));
}

fn push_target_line(r: &mut String, t: &TargetDescriptor)
    ensures
        final(r)@ == old(r)@ + target_line(*t),
{
    let ghost start = r@;
    push_target_ident(r, t);
    push_target_caps(r, t);
    push_title(r, &t.title);
    push_labelled(r, " app=", &t.app_name);
    push_diagnostic(r, &t.diagnostics);
    text::push_str(r, "\n");
    assert(r@ =~= start + target_line(*t));
}

fn push_camera_line(r: &mut String, c: &CameraDescriptor)
    ensures
        final(r)@ == old(r)@ + camera_line(*c),
{
    let ghost start = r@;
    text::push_str(r, "- ");
    text::push_str(r, c.id.as_str());
    text::push_str(r, " name=");
    text::push_str(r, c.name.as_str());
    push_labelled(r, " model=", &c.model_id);
    push_labelled(r, " unique_id=", &c.unique_id);
    text::push_str(r, "\n");
    assert(r@ =~= start + camera_line(*c));
}

proof fn lemma_target_lines_prefix(ts: Seq<TargetDescriptor>, k: int)
    requires
        0 <= k <= ts.len(),
    ensures
        target_lines(ts) == target_lines(ts.take(k)) + target_lines(ts).skip(target_lines(ts.take(k)).len() as int),
        target_lines(ts.take(k)).len() <= target_lines(ts).len(),
    decreases ts.len() - k,
{
    if k == ts.len() {
        assert(ts.take(k) =~= ts);
        assert(target_lines(ts).skip(target_lines(ts).len() as int) =~= seq![]);
    } else {
        lemma_target_lines_prefix(ts, k + 1);
        assert(ts.take(k + 1).drop_last() =~= ts.take(k));
        let a = target_lines(ts.take(k));
        let b = target_lines(ts.take(k + 1));
        assert(b == a + target_line(ts[k]));
        assert(target_lines(ts) =~= a + target_lines(ts).skip(a.len() as int));
    }
}

/// The layout of the `list` listing: the header (platform and session, the
/// number of permissions, `targets:`), then one line per target in order,
/// the `k`-th at the offset of the lines before it; a `cameras:` section
/// follows exactly when there are cameras.
pub proof fn law_list_text_layout(output: ListOutput, k: int)
    requires
        0 <= k < output.targets@.len(),
    ensures
        ({
            let header = platform_session_line(output.adapter) + "permissions: "@ + decimal(output.permissions@.len())
                + "\ntargets:\n"@;
            let ts = output.targets@;
            let at: int = (header.len() + target_lines(ts.take(k)).len()) as int;
            &&& list_text(output).take(header.len() as int) == header
            &&& list_text(output).subrange(at, at + target_line(ts[k]).len() as int) == target_line(ts[k])
            &&& (output.cameras@.len() == 0 <==> list_text(output).len() == header.len() + target_lines(ts).len())
        }),
{
    let header = platform_session_line(output.adapter) + "permissions: "@ + decimal(output.permissions@.len())
        + "\ntargets:\n"@;
    let ts = output.targets@;
    lemma_target_lines_prefix(ts, k + 1);
    assert(ts.take(k + 1).drop_last() =~= ts.take(k));
    let before = target_lines(ts.take(k));
    let line = target_line(ts[k]);
    let tail = if output.cameras@.len() == 0 { seq![] } else { "cameras:\n"@ + camera_lines(output.cameras@) };
    assert(list_text(output) == header + target_lines(ts) + tail);
    assert(target_lines(ts) =~= before + line + target_lines(ts).skip((before + line).len() as int));
    assert(list_text(output).take(header.len() as int) =~= header);
    let at: int = (header.len() + before.len()) as int;
    assert(list_text(output).subrange(at, at + line.len() as int) =~= line);
    if output.cameras@.len() != 0 {
        reveal_strlit("cameras:\n");
        assert(tail.len() > 0);
    }
}

/// The human rendering of the `list` output.
pub fn render_list_human(output: &ListOutput) -> (r: String)
    ensures
        r@ == list_text(*output),
{
    let mut r = String::new();
    push_platform_session(&mut r, &output.adapter);
    text::push_str(&mut r, "permissions: ");
    text::push_str(&mut r, text::format_u64(output.permissions.len() as u64).as_str());
    text::push_str(&mut r, "\ntargets:\n");
    let ghost head = r@;
    let ghost ts = output.targets@;
    let mut i: usize = 0;
    assert(ts.take(0) =~= Seq::<TargetDescriptor>::empty());
    while i < output.targets.len()
        invariant
            ts == output.targets@,
            i <= ts.len(),
            r@ == head + target_lines(ts.take(i as int)),
        decreases output.targets.len() - i,
    {
        push_target_line(&mut r, &output.targets[i]);
        proof {
            assert(ts.take(i + 1).drop_last() =~= ts.take(i as int));
            assert(r@ =~= head + target_lines(ts.take(i + 1)));
        }
        i += 1;
    }
    assert(ts.take(i as int) =~= ts);
    if output.cameras.len() > 0 {
        text::push_str(&mut r, "cameras:\n");
        let ghost mid = r@;
        let ghost cs = output.cameras@;
        let mut j: usize = 0;
        assert(cs.take(0) =~= Seq::<CameraDescriptor>::empty());
        while j < output.cameras.len()
            invariant
                cs == output.cameras@,
                j <= cs.len(),
                r@ == mid + camera_lines(cs.take(j as int)),
            decreases output.cameras.len() - j,
        {
            push_camera_line(&mut r, &output.cameras[j]);
            proof {
                assert(cs.take(j + 1).drop_last() =~= cs.take(j as int));
                assert(r@ =~= mid + camera_lines(cs.take(j + 1)));
            }
            j += 1;
        }
        assert(cs.take(j as int) =~= cs);
    }
    proof {
        assert(r@ =~= list_text(*output));
    }
    r
}

} // verus!

verus! {

// ---------------------------------------------------------------------------
// list-elements
// ---------------------------------------------------------------------------

/// The element's path joined by `/`, or its name where it has no path.
pub open spec fn element_path_text(e: ElementDescriptor) -> Seq<char> {
    if e.path@.len() == 0 {
        e.name@
    } else {
        joined(strings_view(e.path@), "/"@)
    }
}

/// The element's geometry, or `bounds=<none>`.
pub open spec fn element_bounds_text(b: Option<Bounds>) -> Seq<char> {
    match b {
        Some(b) => geometry_text(b),
        None => "bounds=<none>"@,
    }
}

/// The element's actions joined by `,`, or `none`.
pub open spec fn element_actions_text(actions: Seq<String>) -> Seq<char> {
    if actions.len() == 0 {
        "none"@
    } else {
        joined(strings_view(actions), ","@)
    }
}

/// One element's line.
pub open spec fn element_line(e: ElementDescriptor) -> Seq<char> {
    "- "@ + e.id@ + ": "@ + e.role@ + "<"@ + element_path_text(e) + "> "@ + element_bounds_text(e.bounds)
        + " actions="@ + element_actions_text(e.actions@) + "\n"@
}

pub open spec fn element_lines(es: Seq<ElementDescriptor>) -> Seq<char>
    decreases es.len(),
{
    if es.len() == 0 {
        seq![]
    } else {
        element_lines(es.drop_last()) + element_line(es.last())
    }
}

/// The human element listing: the platform, the number of elements, the
/// notes where there are any, and a line per element.
pub open spec fn elements_text(output: ElementListOutput) -> Seq<char> {
    platform_session_line(output.adapter) + "elements: "@ + decimal(output.elements@.len()) + "\n"@ + if output.notes@.len()
        == 0 {
        seq![]
    } else {
        "notes: "@ + joined(strings_view(output.notes@), " "@) + "\n"@
    } + element_lines(output.elements@)
}

fn push_element_path(r: &mut String, e: &ElementDescriptor)
    ensures
        final(r)@ == old(r)@ + element_path_text(*e),
{
    if e.path.len() == 0 {
        text::push_str(r, e.name.as_str());
    } else {
        let p = text::join_strings(&e.path, "/");
        text::push_str(r, p.as_str());
    }
}

fn push_element_bounds(r: &mut String, b: &Option<Bounds>)
    ensures
        final(r)@ == old(r)@ + element_bounds_text(*b),
{
    match b {
        Some(b) => push_geometry(r, b),
        None => text::push_str(r, "bounds=<none>"),
    }
}

fn push_element_actions(r: &mut String, actions: &Vec<String>)
    ensures
        final(r)@ == old(r)@ + element_actions_text(actions@),
{
    if actions.len() == 0 {
        text::push_str(r, "none");
    } else {
        let a = text::join_strings(actions, ",");
        text::push_str(r, a.as_str());
    }
}

fn push_element_line(r: &mut String, e: &ElementDescriptor)
    ensures
        final(r)@ == old(r)@ + element_line(*e),
{
    let ghost start = r@;
    text::push_str(r, "- ");
    text::push_str(r, e.id.as_str());
    text::push_str(r, ": ");
    text::push_str(r, e.role.as_str());
    text::push_str(r, "<");
    push_element_path(r, e);
    text::push_str(r, "> ");
    push_element_bounds(r, &e.bounds);
    text::push_str(r, " actions=");
    push_element_actions(r, &e.actions);
    text::push_str(r, "\n");
    assert(r@ =~= start + element_line(*e));
}

/// The human rendering of the `list-elements` output.
pub fn render_list_elements_human(output: &ElementListOutput) -> (r: String)
    ensures
        r@ == elements_text(*output),
{
    let mut r = String::new();
    push_platform_session(&mut r, &output.adapter);
    text::push_str(&mut r, "elements: ");
    text::push_str(&mut r, text::format_u64(output.elements.len() as u64).as_str());
    text::push_str(&mut r, "\n");
    if output.notes.len() > 0 {
        text::push_str(&mut r, "notes: ");
        text::push_str(&mut r, text::join_strings(&output.notes, " ").as_str());
        text::push_str(&mut r, "\n");
    }
    let ghost head = r@;
    let ghost es = output.elements@;
    let mut i: usize = 0;
    assert(es.take(0) =~= Seq::<ElementDescriptor>::empty());
    while i < output.elements.len()
        invariant
            es == output.elements@,
            i <= es.len(),
            r@ == head + element_lines(es.take(i as int)),
        decreases output.elements.len() - i,
    {
        push_element_line(&mut r, &output.elements[i]);
        proof {
            assert(es.take(i + 1).drop_last() =~= es.take(i as int));
            assert(r@ =~= head + element_lines(es.take(i + 1)));
        }
        i += 1;
    }
    assert(es.take(i as int) =~= es);
    assert(r@ =~= elements_text(*output));
    r
}

} // verus!

verus! {

// ---------------------------------------------------------------------------
// listen
// ---------------------------------------------------------------------------

/// The names `{:?}` prints for the listen request's parts.
pub open spec fn source_kind_name(k: crate::model::AudioSourceKind) -> Seq<char> {
    match k {
        crate::model::AudioSourceKind::System => "System"@,
        crate::model::AudioSourceKind::Microphone => "Microphone"@,
        crate::model::AudioSourceKind::Device => "Device"@,
    }
}

pub open spec fn audio_format_name(f: crate::model::AudioFormat) -> Seq<char> {
    match f {
        crate::model::AudioFormat::Wav => "Wav"@,
        crate::model::AudioFormat::Flac => "Flac"@,
        crate::model::AudioFormat::Opus => "Opus"@,
    }
}

pub open spec fn permission_kind_name(k: crate::platform::PermissionKind) -> Seq<char> {
    match k {
        crate::platform::PermissionKind::ScreenCapture => "ScreenCapture"@,
        crate::platform::PermissionKind::Accessibility => "Accessibility"@,
        crate::platform::PermissionKind::Microphone => "Microphone"@,
        crate::platform::PermissionKind::Camera => "Camera"@,
    }
}

pub open spec fn permission_state_name(s: crate::platform::PermissionState) -> Seq<char> {
    match s {
        crate::platform::PermissionState::Granted => "Granted"@,
        crate::platform::PermissionState::Denied => "Denied"@,
        crate::platform::PermissionState::NotRequired => "NotRequired"@,
        crate::platform::PermissionState::Unknown => "Unknown"@,
    }
}

/// `{:?}` of an audio source selector.
pub open spec fn source_debug(s: crate::model::AudioSourceSelector) -> Seq<char> {
    "AudioSourceSelector { kind: "@ + source_kind_name(s.kind) + ", id: "@ + optional_debug(s.id) + " }"@
}

/// `{:?}` of an optional string.
pub open spec fn optional_debug(v: Option<String>) -> Seq<char> {
    match v {
        Some(s) => "Some("@ + debug_text(s@) + ")"@,
        None => "None"@,
    }
}

/// `{:?}` of an optional audio backend.
pub open spec fn backend_debug(b: Option<crate::platform::AudioBackend>) -> Seq<char> {
    match b {
        Some(b) => "Some("@ + crate::platform::audio_backend_name_spec(b) + ")"@,
        None => "None"@,
    }
}

/// `{:?}` of a list of numbers.
pub open spec fn number_list(ns: Seq<nat>) -> Seq<char> {
    "["@ + joined(ns.map_values(|n: nat| decimal(n)), ", "@) + "]"@
}

/// One permission's line in the listen report.
pub open spec fn listen_permission_line(p: crate::platform::PermissionStatus) -> Seq<char> {
    "- "@ + permission_kind_name(p.permission) + ": "@ + permission_state_name(p.state) + " ("@ + p.summary@ + ")"@
}

/// The artifact line, where a recording was made.
pub open spec fn artifact_line(a: Option<crate::listen::ListenArtifact>) -> Seq<char> {
    match a {
        Some(a) => "artifact: "@ + a.path@ + " ("@ + decimal(a.byte_size as nat) + " bytes, "@ + decimal(
            a.sample_rate_hz as nat,
        ) + " Hz, "@ + decimal(a.channels as nat) + " ch, recorder="@ + a.recorder@ + ")\n"@,
        None => seq![],
    }
}

/// The request part of the listen report.
pub open spec fn listen_request_text(r: crate::commands::ListenResponse) -> Seq<char> {
    "listen source: "@ + source_debug(r.request.source) + "\nformat: "@ + audio_format_name(r.request.format)
        + "\nduration_ms: "@ + decimal(r.request.duration_ms as nat) + "\nplatform: "@ + platform_name_spec(
        r.adapter.platform,
    ) + "\nsession: "@ + session_name_spec(r.adapter.session) + "\n"@
}

/// The capability part of the listen report.
pub open spec fn listen_capability_text(r: crate::commands::ListenResponse) -> Seq<char> {
    "audio_backend: "@ + backend_debug(r.capability.backend) + "\nsupported_sample_rates_hz: "@ + number_list(
        r.capability.supported_sample_rates_hz@.map_values(|x: u32| x as nat),
    ) + "\nsupported_channel_counts: "@ + number_list(
        r.capability.supported_channel_counts@.map_values(|x: u8| x as nat),
    ) + "\npermissions:\n"@ + joined(
        r.capability.permissions@.map_values(|p: crate::platform::PermissionStatus| listen_permission_line(p)),
        "\n"@,
    ) + "\n"@
}

/// The human listen report.
pub open spec fn listen_text(r: crate::commands::ListenResponse) -> Seq<char> {
    listen_request_text(r) + listen_capability_text(r) + "status: "@ + r.execution.status@ + "\n"@ + artifact_line(
        r.execution.artifact,
    ) + "notes: "@ + joined(strings_view(r.execution.notes@), " "@) + "\n"@
}

fn source_kind_label(k: crate::model::AudioSourceKind) -> (r: &'static str)
    ensures
        r@ == source_kind_name(k),
{
    match k {
        crate::model::AudioSourceKind::System => "System",
        crate::model::AudioSourceKind::Microphone => "Microphone",
        crate::model::AudioSourceKind::Device => "Device",
    }
}

fn audio_format_label(f: crate::model::AudioFormat) -> (r: &'static str)
    ensures
        r@ == audio_format_name(f),
{
    match f {
        crate::model::AudioFormat::Wav => "Wav",
        crate::model::AudioFormat::Flac => "Flac",
        crate::model::AudioFormat::Opus => "Opus",
    }
}

fn permission_kind_debug(k: crate::platform::PermissionKind) -> (r: &'static str)
    ensures
        r@ == permission_kind_name(k),
{
    match k {
        crate::platform::PermissionKind::ScreenCapture => "ScreenCapture",
        crate::platform::PermissionKind::Accessibility => "Accessibility",
        crate::platform::PermissionKind::Microphone => "Microphone",
        crate::platform::PermissionKind::Camera => "Camera",
    }
}

fn permission_state_debug(s: crate::platform::PermissionState) -> (r: &'static str)
    ensures
        r@ == permission_state_name(s),
{
    match s {
        crate::platform::PermissionState::Granted => "Granted",
        crate::platform::PermissionState::Denied => "Denied",
        crate::platform::PermissionState::NotRequired => "NotRequired",
        crate::platform::PermissionState::Unknown => "Unknown",
    }
}

fn push_source_debug(r: &mut String, s: &crate::model::AudioSourceSelector)
    ensures
        final(r)@ == old(r)@ + source_debug(*s),
{
    let ghost start = r@;
    text::push_str(r, "AudioSourceSelector { kind: ");
    text::push_str(r, source_kind_label(s.kind));
    text::push_str(r, ", id: ");
    let ghost mid = r@;
    match &s.id {
        Some(id) => {
            text::push_str(r, "Some(");
            text::push_str(r, text::debug_quoted(id.as_str()).as_str());
            text::push_str(r, ")");
        },
        None => text::push_str(r, "None"),
    }
    let ghost after = r@;
    text::push_str(r, " }");
    proof {
        assert(after =~= mid + optional_debug(s.id));
        assert(r@ =~= start + source_debug(*s));
    }
}

fn push_backend_debug(r: &mut String, b: &Option<crate::platform::AudioBackend>)
    ensures
        final(r)@ == old(r)@ + backend_debug(*b),
{
    let ghost start = r@;
    match b {
        Some(b) => {
            text::push_str(r, "Some(");
            text::push_str(r, crate::platform::audio_backend_name(*b));
            text::push_str(r, ")");
        },
        None => text::push_str(r, "None"),
    }
    assert(r@ =~= start + backend_debug(*b));
}

fn push_number_list(r: &mut String, ns: &Vec<u64>)
    ensures
        final(r)@ == old(r)@ + number_list(ns@.map_values(|x: u64| x as nat)),
{
    let ghost start = r@;
    let ghost view = ns@.map_values(|x: u64| x as nat).map_values(|n: nat| decimal(n));
    let mut parts: Vec<String> = Vec::new();
    let mut i: usize = 0;
    while i < ns.len()
        invariant
            i <= ns@.len(),
            view.len() == ns@.len(),
            strings_view(parts@) == view.take(i as int),
            forall|k: int| 0 <= k < ns@.len() ==> #[trigger] view[k] == decimal(ns@[k] as nat),
        decreases ns.len() - i,
    {
        let d = text::format_u64(ns[i]);
        let ghost before = parts@;
        parts.push(d);
        proof {
            assert(strings_view(parts@) =~= strings_view(before).push(d@));
            assert(view.take(i + 1) =~= view.take(i as int).push(view[i as int]));
        }
        i += 1;
    }
    assert(view.take(i as int) =~= view);
    text::push_str(r, "[");
    text::push_str(r, text::join_strings(&parts, ", ").as_str());
    text::push_str(r, "]");
    assert(r@ =~= start + number_list(ns@.map_values(|x: u64| x as nat)));
}

fn widen_u32(v: &Vec<u32>) -> (r: Vec<u64>)
    ensures
        r@.map_values(|x: u64| x as nat) == v@.map_values(|x: u32| x as nat),
{
    let mut r: Vec<u64> = Vec::new();
    let mut i: usize = 0;
    while i < v.len()
        invariant
            i <= v@.len(),
            r@.len() == i,
            forall|k: int| 0 <= k < i ==> r@[k] == v@[k] as u64,
        decreases v.len() - i,
    {
        r.push(v[i] as u64);
        i += 1;
    }
    assert(r@.map_values(|x: u64| x as nat) =~= v@.map_values(|x: u32| x as nat));
    r
}

fn widen_u8(v: &Vec<u8>) -> (r: Vec<u64>)
    ensures
        r@.map_values(|x: u64| x as nat) == v@.map_values(|x: u8| x as nat),
{
    let mut r: Vec<u64> = Vec::new();
    let mut i: usize = 0;
    while i < v.len()
        invariant
            i <= v@.len(),
            r@.len() == i,
            forall|k: int| 0 <= k < i ==> r@[k] == v@[k] as u64,
        decreases v.len() - i,
    {
        r.push(v[i] as u64);
        i += 1;
    }
    assert(r@.map_values(|x: u64| x as nat) =~= v@.map_values(|x: u8| x as nat));
    r
}

fn permission_lines(ps: &Vec<crate::platform::PermissionStatus>) -> (r: Vec<String>)
    ensures
        strings_view(r@) == ps@.map_values(|p: crate::platform::PermissionStatus| listen_permission_line(p)),
{
    let ghost view = ps@.map_values(|p: crate::platform::PermissionStatus| listen_permission_line(p));
    let mut r: Vec<String> = Vec::new();
    let mut i: usize = 0;
    while i < ps.len()
        invariant
            i <= ps@.len(),
            view.len() == ps@.len(),
            strings_view(r@) == view.take(i as int),
            forall|k: int| 0 <= k < ps@.len() ==> #[trigger] view[k] == listen_permission_line(ps@[k]),
        decreases ps.len() - i,
    {
        let p = &ps[i];
        let mut line = text::owned("- ");
        text::push_str(&mut line, permission_kind_debug(p.permission));
        text::push_str(&mut line, ": ");
        text::push_str(&mut line, permission_state_debug(p.state));
        text::push_str(&mut line, " (");
        text::push_str(&mut line, p.summary.as_str());
        text::push_str(&mut line, ")");
        assert(line@ =~= listen_permission_line(*p));
        let ghost before = r@;
        r.push(line);
        proof {
            assert(strings_view(r@) =~= strings_view(before).push(line@));
            assert(view.take(i + 1) =~= view.take(i as int).push(view[i as int]));
        }
        i += 1;
    }
    assert(view.take(i as int) =~= view);
    r
}

fn push_listen_request(r: &mut String, resp: &crate::commands::ListenResponse)
    ensures
        final(r)@ == old(r)@ + listen_request_text(*resp),
{
    let ghost start = r@;
    text::push_str(r, "listen source: ");
    push_source_debug(r, &resp.request.source);
    text::push_str(r, "\nformat: ");
    text::push_str(r, audio_format_label(resp.request.format));
    text::push_str(r, "\nduration_ms: ");
    text::push_str(r, text::format_u64(resp.request.duration_ms).as_str());
    text::push_str(r, "\nplatform: ");
    text::push_str(r, crate::platform::platform_name(resp.adapter.platform));
    text::push_str(r, "\nsession: ");
    text::push_str(r, crate::platform::session_name(resp.adapter.session));
    text::push_str(r, "\n");
    assert(r@ =~= start + listen_request_text(*resp));
}

fn push_listen_capability(r: &mut String, resp: &crate::commands::ListenResponse)
    ensures
        final(r)@ == old(r)@ + listen_capability_text(*resp),
{
    let ghost start = r@;
    text::push_str(r, "audio_backend: ");
    push_backend_debug(r, &resp.capability.backend);
    text::push_str(r, "\nsupported_sample_rates_hz: ");
    push_number_list(r, &widen_u32(&resp.capability.supported_sample_rates_hz));
    text::push_str(r, "\nsupported_channel_counts: ");
    push_number_list(r, &widen_u8(&resp.capability.supported_channel_counts));
    text::push_str(r, "\npermissions:\n");
    let lines = permission_lines(&resp.capability.permissions);
    text::push_str(r, text::join_strings(&lines, "\n").as_str());
    text::push_str(r, "\n");
    assert(r@ =~= start + listen_capability_text(*resp));
}

fn push_artifact_line(r: &mut String, a: &Option<crate::listen::ListenArtifact>)
    ensures
        final(r)@ == old(r)@ + artifact_line(*a),
{
    let ghost start = r@;
    match a {
        Some(a) => {
            text::push_str(r, "artifact: ");
            text::push_str(r, a.path.as_str());
            text::push_str(r, " (");
            text::push_str(r, text::format_u64(a.byte_size).as_str());
            text::push_str(r, " bytes, ");
            text::push_str(r, text::format_u64(a.sample_rate_hz as u64).as_str());
            text::push_str(r, " Hz, ");
            text::push_str(r, text::format_u64(a.channels as u64).as_str());
            text::push_str(r, " ch, recorder=");
            text::push_str(r, a.recorder.as_str());
            text::push_str(r, ")\n");
        },
        None => {},
    }
    assert(r@ =~= start + artifact_line(*a));
}

/// The human rendering of the listen report.
pub fn render_listen_human(resp: &crate::commands::ListenResponse) -> (r: String)
    ensures
        r@ == listen_text(*resp),
{
    let mut r = String::new();
    push_listen_request(&mut r, resp);
    push_listen_capability(&mut r, resp);
    text::push_str(&mut r, "status: ");
    text::push_str(&mut r, resp.execution.status.as_str());
    text::push_str(&mut r, "\n");
    push_artifact_line(&mut r, &resp.execution.artifact);
    text::push_str(&mut r, "notes: ");
    text::push_str(&mut r, text::join_strings(&resp.execution.notes, " ").as_str());
    text::push_str(&mut r, "\n");
    assert(r@ =~= listen_text(*resp));
    r
}

} // verus!

verus! {

// ---------------------------------------------------------------------------
// capture and run
// ---------------------------------------------------------------------------

/// The name `{:?}` prints for an image format.
pub open spec fn image_format_name(f: crate::config::ImageFormat) -> Seq<char> {
    match f {
        crate::config::ImageFormat::Png => "Png"@,
        crate::config::ImageFormat::Jpeg => "Jpeg"@,
    }
}

fn image_format_label(f: crate::config::ImageFormat) -> (r: &'static str)
    ensures
        r@ == image_format_name(f),
{
    match f {
        crate::config::ImageFormat::Png => "Png",
        crate::config::ImageFormat::Jpeg => "Jpeg",
    }
}

/// `N/D x N/D` of a coordinate transform.
pub open spec fn transform_text(t: crate::model::CoordinateTransform) -> Seq<char> {
    decimal(t.x_numerator as nat) + "/"@ + decimal(t.x_denominator as nat) + " x "@ + decimal(t.y_numerator as nat)
        + "/"@ + decimal(t.y_denominator as nat)
}

fn push_transform(r: &mut String, t: &crate::model::CoordinateTransform)
    ensures
        final(r)@ == old(r)@ + transform_text(*t),
{
    let ghost start = r@;
    text::push_str(r, text::format_u64(t.x_numerator as u64).as_str());
    text::push_str(r, "/");
    text::push_str(r, text::format_u64(t.x_denominator as u64).as_str());
    text::push_str(r, " x ");
    text::push_str(r, text::format_u64(t.y_numerator as u64).as_str());
    text::push_str(r, "/");
    text::push_str(r, text::format_u64(t.y_denominator as u64).as_str());
    assert(r@ =~= start + transform_text(*t));
}

/// The target and platform of a capture report.
pub open spec fn capture_target_part(o: crate::model::CaptureOutput) -> Seq<char> {
    "capture target: "@ + target_kind_name(o.target.kind_spec()) + " "@ + o.target.id_spec() + "\nplatform: "@
        + platform_name_spec(o.adapter.platform) + " / "@ + session_name_spec(o.adapter.session) + "\n"@
}

/// The sizes of a capture report.
pub open spec fn capture_size_part(o: crate::model::CaptureOutput) -> Seq<char> {
    "original: "@ + decimal(o.original_bounds.width as nat) + "x"@ + decimal(o.original_bounds.height as nat)
        + "\noutput: "@ + decimal(o.output_bounds.width as nat) + "x"@ + decimal(o.output_bounds.height as nat)
        + "\nresized: "@ + bool_text(o.resized) + "\n"@
}

/// The target, platform and sizes of a capture report.
pub open spec fn capture_head(o: crate::model::CaptureOutput) -> Seq<char> {
    capture_target_part(o) + capture_size_part(o)
}

/// The mappings, encoding and timestamp of a capture report.
pub open spec fn capture_tail(o: crate::model::CaptureOutput) -> Seq<char> {
    "source_to_output: "@ + transform_text(o.source_to_output) + "\noutput_to_source: "@ + transform_text(
        o.output_to_source,
    ) + "\nformat: "@ + image_format_name(o.format) + "\ncompression: "@ + decimal(o.compression as nat)
        + "\nmedia_type: "@ + o.media_type@ + "\nimage_base64_bytes: "@ + decimal(o.image_base64@.len())
        + "\ncaptured_at: "@ + o.captured_at@ + "\n"@
}

/// The human capture report.
pub open spec fn capture_text(o: crate::model::CaptureOutput) -> Seq<char> {
    capture_head(o) + capture_tail(o)
}

fn push_capture_target(r: &mut String, o: &crate::model::CaptureOutput)
    ensures
        final(r)@ == old(r)@ + capture_target_part(*o),
{
    let ghost start = r@;
    text::push_str(r, "capture target: ");
    text::push_str(r, target_kind_label(o.target.kind()));
    text::push_str(r, " ");
    text::push_str(r, o.target.id());
    text::push_str(r, "\nplatform: ");
    text::push_str(r, crate::platform::platform_name(o.adapter.platform));
    text::push_str(r, " / ");
    text::push_str(r, crate::platform::session_name(o.adapter.session));
    text::push_str(r, "\n");
    assert(r@ =~= start + capture_target_part(*o));
}

fn push_capture_sizes(r: &mut String, o: &crate::model::CaptureOutput)
    ensures
        final(r)@ == old(r)@ + capture_size_part(*o),
{
    let ghost start = r@;
    let ow = text::format_u64(o.original_bounds.width as u64);
    let oh = text::format_u64(o.original_bounds.height as u64);
    let w = text::format_u64(o.output_bounds.width as u64);
    let h = text::format_u64(o.output_bounds.height as u64);
    text::push_str(r, "original: ");
    text::push_str(r, ow.as_str());
    text::push_str(r, "x");
    text::push_str(r, oh.as_str());
    text::push_str(r, "\noutput: ");
    text::push_str(r, w.as_str());
    text::push_str(r, "x");
    text::push_str(r, h.as_str());
    text::push_str(r, "\nresized: ");
    text::push_str(r, bool_label(o.resized));
    text::push_str(r, "\n");
    assert(r@ =~= start + capture_size_part(*o));
}

fn push_capture_head(r: &mut String, o: &crate::model::CaptureOutput)
    ensures
        final(r)@ == old(r)@ + capture_head(*o),
{
    let ghost start = r@;
    push_capture_target(r, o);
    push_capture_sizes(r, o);
    assert(r@ =~= start + capture_head(*o));
}

#[verifier::rlimit(40)]
fn push_capture_tail(r: &mut String, o: &crate::model::CaptureOutput)
    ensures
        final(r)@ == old(r)@ + capture_tail(*o),
{
    let ghost start = r@;
    text::push_str(r, "source_to_output: ");
    push_transform(r, &o.source_to_output);
    text::push_str(r, "\noutput_to_source: ");
    push_transform(r, &o.output_to_source);
    text::push_str(r, "\nformat: ");
    text::push_str(r, image_format_label(o.format));
    text::push_str(r, "\ncompression: ");
    text::push_str(r, text::format_u64(o.compression as u64).as_str());
    text::push_str(r, "\nmedia_type: ");
    text::push_str(r, o.media_type.as_str());
    text::push_str(r, "\nimage_base64_bytes: ");
    text::push_str(r, text::format_u64(o.image_base64.unicode_len() as u64).as_str());
    text::push_str(r, "\ncaptured_at: ");
    text::push_str(r, o.captured_at.as_str());
    text::push_str(r, "\n");
    assert(r@ =~= start + capture_tail(*o));
}

/// The human rendering of a capture report.
pub fn render_capture_human(output: &crate::model::CaptureOutput) -> (r: String)
    ensures
        r@ == capture_text(*output),
{
    let mut r = String::new();
    push_capture_head(&mut r, output);
    push_capture_tail(&mut r, output);
    r
}

/// The lock line of a run report.
pub open spec fn lock_summary(report: Option<crate::execution_lock::ExecutionLockReport>) -> Seq<char> {
    match report {
        None => "<not reported>"@,
        Some(r) => "enabled="@ + bool_text(r.enabled) + " acquired="@ + bool_text(r.acquired) + " wait_ms="@ + decimal(
            r.wait_ms as nat,
        ) + " queue_position_at_join="@ + decimal(r.queue_position_at_join as nat) + " queue_depth_at_join="@
            + decimal(r.queue_depth_at_join as nat) + " stale_locks_reaped="@ + decimal(r.stale_locks_reaped as nat)
            + " stale_tickets_reaped="@ + decimal(r.stale_tickets_reaped as nat),
    }
}

/// The summary of the lock a run waited for.
pub fn render_execution_lock_summary(report: &Option<crate::execution_lock::ExecutionLockReport>) -> (r: String)
    ensures
        r@ == lock_summary(*report),
{
    match report {
        None => text::owned("<not reported>"),
        Some(rep) => {
            let mut r = text::owned("enabled=");
            text::push_str(&mut r, bool_label(rep.enabled));
            text::push_str(&mut r, " acquired=");
            text::push_str(&mut r, bool_label(rep.acquired));
            text::push_str(&mut r, " wait_ms=");
            text::push_str(&mut r, text::format_u64(rep.wait_ms).as_str());
            text::push_str(&mut r, " queue_position_at_join=");
            text::push_str(&mut r, text::format_u64(rep.queue_position_at_join as u64).as_str());
            text::push_str(&mut r, " queue_depth_at_join=");
            text::push_str(&mut r, text::format_u64(rep.queue_depth_at_join as u64).as_str());
            text::push_str(&mut r, " stale_locks_reaped=");
            text::push_str(&mut r, text::format_u64(rep.stale_locks_reaped as u64).as_str());
            text::push_str(&mut r, " stale_tickets_reaped=");
            text::push_str(&mut r, text::format_u64(rep.stale_tickets_reaped as u64).as_str());
            assert(r@ =~= lock_summary(*report));
            r
        },
    }
}

/// The value, or `<none>`.
pub open spec fn or_none(v: Option<String>) -> Seq<char> {
    match v {
        Some(s) => s@,
        None => "<none>"@,
    }
}

fn push_or_none(r: &mut String, v: &Option<String>)
    ensures
        final(r)@ == old(r)@ + or_none(*v),
{
    match v {
        Some(s) => text::push_str(r, s.as_str()),
        None => text::push_str(r, "<none>"),
    }
}

/// The target, platform and counters of a run report.
pub open spec fn run_head(o: crate::model::RunOutput) -> Seq<char> {
    "run target: "@ + target_kind_name(o.target.kind_spec()) + " "@ + o.target.id_spec() + "\nplatform: "@
        + platform_name_spec(o.adapter.platform) + " / "@ + session_name_spec(o.adapter.session)
        + "\naction_count: "@ + decimal(o.action_count as nat) + "\nfocus_required: "@ + bool_text(o.focus_required)
        + "\nfocus_transferred: "@ + bool_text(o.focus_transferred) + "\n"@
}

/// The identifier of the focus held before, or `<none>`.
pub open spec fn previous_focus_text(f: Option<crate::model::FocusSnapshot>) -> Seq<char> {
    match f {
        Some(f) => f.id@,
        None => "<none>"@,
    }
}

/// The focus part of a run report.
pub open spec fn run_focus_part(o: crate::model::RunOutput) -> Seq<char> {
    "focused_target: "@ + or_none(o.focused_target) + "\nprevious_focus: "@ + previous_focus_text(o.previous_focus)
        + "\n"@
}

/// The notes of a run report, or `none`.
pub open spec fn run_notes(notes: Seq<String>) -> Seq<char> {
    if notes.len() == 0 {
        "none"@
    } else {
        joined(strings_view(notes), " "@)
    }
}

/// The restoration, lock and notes part of a run report.
pub open spec fn run_rest_part(o: crate::model::RunOutput) -> Seq<char> {
    "focus_restored: "@ + bool_text(o.focus_restored) + "\npointer_restored: "@ + bool_text(o.pointer_restored)
        + "\nrestore_error: "@ + or_none(o.restore_error) + "\nexecution_lock: "@ + lock_summary(o.execution_lock)
        + "\nnotes: "@ + run_notes(o.notes@) + "\n"@
}

/// The focus, lock and notes of a run report.
pub open spec fn run_tail(o: crate::model::RunOutput) -> Seq<char> {
    run_focus_part(o) + run_rest_part(o)
}

/// The human run report.
pub open spec fn run_text(o: crate::model::RunOutput) -> Seq<char> {
    run_head(o) + run_tail(o)
}

fn push_run_head(r: &mut String, o: &crate::model::RunOutput)
    ensures
        final(r)@ == old(r)@ + run_head(*o),
{
    let ghost start = r@;
    text::push_str(r, "run target: ");
    text::push_str(r, target_kind_label(o.target.kind()));
    text::push_str(r, " ");
    text::push_str(r, o.target.id());
    text::push_str(r, "\nplatform: ");
    text::push_str(r, crate::platform::platform_name(o.adapter.platform));
    text::push_str(r, " / ");
    text::push_str(r, crate::platform::session_name(o.adapter.session));
    text::push_str(r, "\naction_count: ");
    text::push_str(r, text::format_u64(o.action_count as u64).as_str());
    text::push_str(r, "\nfocus_required: ");
    text::push_str(r, bool_label(o.focus_required));
    text::push_str(r, "\nfocus_transferred: ");
    text::push_str(r, bool_label(o.focus_transferred));
    text::push_str(r, "\n");
    assert(r@ =~= start + run_head(*o));
}

fn push_run_focus(r: &mut String, o: &crate::model::RunOutput)
    ensures
        final(r)@ == old(r)@ + run_focus_part(*o),
{
    let ghost start = r@;
    text::push_str(r, "focused_target: ");
    push_or_none(r, &o.focused_target);
    text::push_str(r, "\nprevious_focus: ");
    match &o.previous_focus {
        Some(f) => text::push_str(r, f.id.as_str()),
        None => text::push_str(r, "<none>"),
    }
    text::push_str(r, "\n");
    assert(r@ =~= start + run_focus_part(*o));
}

fn push_run_rest(r: &mut String, o: &crate::model::RunOutput)
    ensures
        final(r)@ == old(r)@ + run_rest_part(*o),
{
    let ghost start = r@;
    let lock = render_execution_lock_summary(&o.execution_lock);
    let notes = if o.notes.len() == 0 {
        text::owned("none")
    } else {
        text::join_strings(&o.notes, " ")
    };
    text::push_str(r, "focus_restored: ");
    text::push_str(r, bool_label(o.focus_restored));
    text::push_str(r, "\npointer_restored: ");
    text::push_str(r, bool_label(o.pointer_restored));
    text::push_str(r, "\nrestore_error: ");
    push_or_none(r, &o.restore_error);
    text::push_str(r, "\nexecution_lock: ");
    text::push_str(r, lock.as_str());
    text::push_str(r, "\nnotes: ");
    text::push_str(r, notes.as_str());
    text::push_str(r, "\n");
    assert(r@ =~= start + run_rest_part(*o));
}

fn push_run_tail(r: &mut String, o: &crate::model::RunOutput)
    ensures
        final(r)@ == old(r)@ + run_tail(*o),
{
    let ghost start = r@;
    push_run_focus(r, o);
    push_run_rest(r, o);
    assert(r@ =~= start + run_tail(*o));
}

/// The human rendering of a run report.
pub fn render_run_human(output: &crate::model::RunOutput) -> (r: String)
    ensures
        r@ == run_text(*output),
{
    let mut r = String::new();
    push_run_head(&mut r, output);
    push_run_tail(&mut r, output);
    r
}

} // verus!
