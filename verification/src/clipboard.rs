//! Explicit clipboard access for Linux/X11 selections: the inputs, their
//! validation, the outputs and their rendering, and the decisions of the X11
//! selection protocol (which selection atom, which targets to ask for, how to
//! answer another client's request, what a reply means). The X11 connection
//! itself is driven by the caller.
use vstd::prelude::*;

use crate::envelope::ErrorCategory;
use crate::error::{is_invalid, DetailValue, TendrilError};
use crate::platform::{
    platform_name_spec, session_name_spec, AdapterInfo, DesktopSession, PlatformKind,
};
use crate::text::{self, decimal, hex, lower, owned, trim};

verus! {

pub const DEFAULT_CLIPBOARD_TIMEOUT_MS: u64 = 3_000;
pub const DEFAULT_CLIPBOARD_SERVE_MS: u64 = 5_000;
/// Pause between two polls of the X11 event queue.
pub const CLIPBOARD_POLL_INTERVAL_MS: u64 = 20;

#[derive(Debug, Clone, Copy, PartialEq, Eq, Structural)]
pub enum ClipboardSelection {
    Clipboard,
    Primary,
}

pub open spec fn selection_label(s: ClipboardSelection) -> Seq<char> {
    match s {
        ClipboardSelection::Clipboard => "clipboard"@,
        ClipboardSelection::Primary => "primary"@,
    }
}

/// The name `{:?}` prints for a selection.
pub open spec fn selection_debug_name(s: ClipboardSelection) -> Seq<char> {
    match s {
        ClipboardSelection::Clipboard => "Clipboard"@,
        ClipboardSelection::Primary => "Primary"@,
    }
}

/// The selection a name asks for: `clipboard` when absent; otherwise the
/// trimmed name without ASCII case must be `clipboard` or `primary`.
pub open spec fn parse_selection_spec(value: Option<Seq<char>>) -> Option<ClipboardSelection> {
    let name = match value {
        Some(v) => lower(trim(v)),
        None => "clipboard"@,
    };
    if name == "clipboard"@ {
        Some(ClipboardSelection::Clipboard)
    } else if name == "primary"@ {
        Some(ClipboardSelection::Primary)
    } else {
        None
    }
}

impl ClipboardSelection {
    /// Parses a selection name.
    pub fn parse(value: Option<&str>) -> (r: Result<Self, TendrilError>)
        ensures
            ({
                let v = match value {
                    Some(s) => Some(s@),
                    None => None,
                };
                match parse_selection_spec(v) {
                    Some(sel) => r == Ok::<ClipboardSelection, TendrilError>(sel),
                    None => r matches Err(e) && is_invalid(
                        e,
                        "invalid_clipboard_input"@,
                        "selection"@,
                        "unsupported clipboard selection `"@ + lower(trim(v->0))
                            + "`; expected `clipboard` or `primary`"@,
                    ),
                }
            }),
    {
        let name = match value {
            Some(v) => text::to_lower(text::trimmed(text::chars_of(v).as_slice()).as_slice()),
            None => text::chars_of("clipboard"),
        };
        proof {
            reveal_strlit("clipboard");
            reveal_strlit("primary");
        }
        if text::is(name.as_slice(), "clipboard") {
            Ok(ClipboardSelection::Clipboard)
        } else if text::is(name.as_slice(), "primary") {
            Ok(ClipboardSelection::Primary)
        } else {
            let mut message = owned("unsupported clipboard selection `");
            text::push_chars(&mut message, name.as_slice());
            text::push_str(&mut message, "`; expected `clipboard` or `primary`");
            Err(TendrilError::invalid(message, "invalid_clipboard_input", "selection"))
        }
    }

    /// The selection's name.
    pub fn as_str(self) -> (r: &'static str)
        ensures
            r@ == selection_label(self),
    {
        match self {
            ClipboardSelection::Clipboard => "clipboard",
            ClipboardSelection::Primary => "primary",
        }
    }
}

#[derive(Debug, Clone, PartialEq, Eq)]
pub struct ClipboardGetInput {
    pub selection: ClipboardSelection,
    pub timeout_ms: u64,
}

impl ClipboardGetInput {
    /// The wait for the owner must be positive.
    pub fn validate(&self) -> (r: Result<(), TendrilError>)
        ensures
            r is Ok <==> self.timeout_ms != 0,
            r matches Err(e) ==> is_invalid(
                e,
                "invalid_clipboard_input"@,
                "timeout_ms"@,
                "timeout_ms must be greater than zero"@,
            ),
    {
        if self.timeout_ms == 0 {
            return Err(
                TendrilError::invalid(owned("timeout_ms must be greater than zero"), "invalid_clipboard_input", "timeout_ms"),
            );
        }
        Ok(())
    }
}

#[derive(Debug, Clone, PartialEq, Eq)]
pub struct ClipboardSetInput {
    pub selection: ClipboardSelection,
    pub text: String,
    pub serve_ms: u64,
}

impl ClipboardSetInput {
    /// The text served must not be empty.
    pub fn validate(&self) -> (r: Result<(), TendrilError>)
        ensures
            r is Ok <==> self.text@.len() > 0,
            r matches Err(e) ==> is_invalid(e, "invalid_clipboard_input"@, "text"@, "clipboard text cannot be empty"@),
    {
        if self.text.as_str().is_empty() {
            return Err(TendrilError::invalid(owned("clipboard text cannot be empty"), "invalid_clipboard_input", "text"));
        }
        Ok(())
    }
}

#[derive(Debug, Clone, PartialEq, Eq)]
pub struct ClipboardGetOutput {
    pub adapter: AdapterInfo,
    pub selection: ClipboardSelection,
    pub text: String,
    pub text_len: usize,
    pub notes: Vec<String>,
}

#[derive(Debug, Clone, PartialEq, Eq)]
pub struct ClipboardSetOutput {
    pub adapter: AdapterInfo,
    pub selection: ClipboardSelection,
    pub text_len: usize,
    pub serve_ms: u64,
    pub served_requests: usize,
    pub notes: Vec<String>,
}

/// The length of a text in UTF-8 bytes, as `str::len`.
pub open spec fn utf8_len(s: Seq<char>) -> nat {
    vstd::utf8::encode_utf8(s).len()
}

pub open spec fn clipboard_unsupported_message() -> Seq<char> {
    "explicit clipboard get/set is currently implemented for Linux/X11 selections only"@
}

pub open spec fn clipboard_unsupported_action() -> Seq<char> {
    "Use the headless X11 micro-environment for deterministic browser↔OS clipboard smokes. For Wayland/macOS/Windows, use the platform clipboard tool directly or file a platform-specific Tendril clipboard backend bead."@
}

/// Explicit clipboard access is offered on Linux/X11 only.
pub fn ensure_x11_clipboard_supported(adapter: &AdapterInfo) -> (r: Result<(), TendrilError>)
    ensures
        r is Ok <==> (adapter.platform == PlatformKind::Linux && adapter.session == DesktopSession::X11),
        r matches Err(e) ==> {
            &&& e.is_structured()
            &&& e.category_spec() == ErrorCategory::UnsupportedCapability
            &&& e.code_spec() == "clipboard_not_supported"@
            &&& e.message_spec() == clipboard_unsupported_message()
            &&& e.detail_spec("platform"@) matches Some(DetailValue::Text(p)) && p@ == platform_name_spec(adapter.platform)
            &&& e.detail_spec("session"@) matches Some(DetailValue::Text(s)) && s@ == session_name_spec(adapter.session)
            &&& e.detail_spec("suggested_action"@) matches Some(DetailValue::Text(a)) && a@ == clipboard_unsupported_action()
        },
{
    if adapter.platform == PlatformKind::Linux && adapter.session == DesktopSession::X11 {
        return Ok(());
    }
    proof {
        reveal_strlit("platform");
        reveal_strlit("session");
        reveal_strlit("suggested_action");
        assert("platform"@.len() == 8 && "session"@.len() == 7 && "suggested_action"@.len() == 16);
    }
    Err(
        TendrilError::unsupported_capability(
            "clipboard_not_supported",
            owned("explicit clipboard get/set is currently implemented for Linux/X11 selections only"),
        ).with_detail_entry("platform", DetailValue::Text(owned(crate::platform::platform_name(adapter.platform))))
            .with_detail_entry("session", DetailValue::Text(owned(crate::platform::session_name(adapter.session))))
            .with_detail_entry(
            "suggested_action",
            DetailValue::Text(
                owned(
                    "Use the headless X11 micro-environment for deterministic browser↔OS clipboard smokes. For Wayland/macOS/Windows, use the platform clipboard tool directly or file a platform-specific Tendril clipboard backend bead.",
                ),
            ),
        ),
    )
}

/// Reads a selection: the input must be valid and the platform supported;
/// then the text the X11 owner provided (or the failure reading it) makes
/// the output.
pub fn execute_clipboard_get(
    input: &ClipboardGetInput,
    adapter: AdapterInfo,
    read: Result<(String, Vec<String>), TendrilError>,
) -> (r: Result<ClipboardGetOutput, TendrilError>)
    ensures
        input.timeout_ms == 0 ==> (r matches Err(e) && is_invalid(
            e,
            "invalid_clipboard_input"@,
            "timeout_ms"@,
            "timeout_ms must be greater than zero"@,
        )),
        input.timeout_ms != 0 && !(adapter.platform == PlatformKind::Linux && adapter.session == DesktopSession::X11)
            ==> (r matches Err(e) && e.category_spec() == ErrorCategory::UnsupportedCapability && e.code_spec()
            == "clipboard_not_supported"@),
        input.timeout_ms != 0 && adapter.platform == PlatformKind::Linux && adapter.session == DesktopSession::X11
            ==> match read {
            Ok((t, notes)) => r matches Ok(out) && out.adapter == adapter && out.selection == input.selection
                && out.text == t && out.text_len == utf8_len(t@) && out.notes == notes,
            Err(e) => r == Err::<ClipboardGetOutput, TendrilError>(e),
        },
{
    match input.validate() {
        Ok(()) => {},
        Err(e) => return Err(e),
    }
    match ensure_x11_clipboard_supported(&adapter) {
        Ok(()) => {},
        Err(e) => return Err(e),
    }
    let (text, notes) = match read {
        Ok(v) => v,
        Err(e) => return Err(e),
    };
    let text_len = text.as_str().as_bytes().len();
    Ok(ClipboardGetOutput { adapter, selection: input.selection, text, text_len, notes })
}

/// Serves a selection: the input must be valid and the platform supported;
/// then what the X11 serving loop reported makes the output.
pub fn execute_clipboard_set(
    input: &ClipboardSetInput,
    adapter: AdapterInfo,
    served: Result<(usize, Vec<String>), TendrilError>,
) -> (r: Result<ClipboardSetOutput, TendrilError>)
    ensures
        input.text@.len() == 0 ==> (r matches Err(e) && is_invalid(
            e,
            "invalid_clipboard_input"@,
            "text"@,
            "clipboard text cannot be empty"@,
        )),
        input.text@.len() != 0 && !(adapter.platform == PlatformKind::Linux && adapter.session == DesktopSession::X11)
            ==> (r matches Err(e) && e.category_spec() == ErrorCategory::UnsupportedCapability && e.code_spec()
            == "clipboard_not_supported"@),
        input.text@.len() != 0 && adapter.platform == PlatformKind::Linux && adapter.session == DesktopSession::X11
            ==> match served {
            Ok((count, notes)) => r matches Ok(out) && out.adapter == adapter && out.selection == input.selection
                && out.text_len == utf8_len(input.text@) && out.serve_ms == input.serve_ms && out.served_requests
                == count && out.notes == notes,
            Err(e) => r == Err::<ClipboardSetOutput, TendrilError>(e),
        },
{
    match input.validate() {
        Ok(()) => {},
        Err(e) => return Err(e),
    }
    match ensure_x11_clipboard_supported(&adapter) {
        Ok(()) => {},
        Err(e) => return Err(e),
    }
    let (served_requests, notes) = match served {
        Ok(v) => v,
        Err(e) => return Err(e),
    };
    Ok(
        ClipboardSetOutput {
            adapter,
            selection: input.selection,
            text_len: input.text.as_str().as_bytes().len(),
            serve_ms: input.serve_ms,
            served_requests,
            notes,
        },
    )
}

/// Notes joined with spaces, or `none`.
pub open spec fn notes_text(notes: Seq<Seq<char>>) -> Seq<char> {
    if notes.len() == 0 {
        "none"@
    } else {
        text::joined(notes, " "@)
    }
}

fn notes_text_exec(notes: &Vec<String>) -> (r: String)
    ensures
        r@ == notes_text(text::strings_view(notes@)),
{
    if notes.len() == 0 {
        owned("none")
    } else {
        text::join_strings(notes, " ")
    }
}

fn selection_debug(s: ClipboardSelection) -> (r: &'static str)
    ensures
        r@ == selection_debug_name(s),
{
    match s {
        ClipboardSelection::Clipboard => "Clipboard",
        ClipboardSelection::Primary => "Primary",
    }
}

/// The human rendering of a read selection.
pub fn render_clipboard_get_human(output: &ClipboardGetOutput) -> (r: String)
    ensures
        r@ == "clipboard selection: "@ + selection_debug_name(output.selection) + "\nplatform: "@ + platform_name_spec(
            output.adapter.platform,
        ) + " / "@ + session_name_spec(output.adapter.session) + "\ntext_len: "@ + decimal(output.text_len as nat)
            + "\ntext: "@ + output.text@ + "\nnotes: "@ + notes_text(text::strings_view(output.notes@)) + "\n"@,
{
    let mut r = owned("clipboard selection: ");
    text::push_str(&mut r, selection_debug(output.selection));
    text::push_str(&mut r, "\nplatform: ");
    text::push_str(&mut r, crate::platform::platform_name(output.adapter.platform));
    text::push_str(&mut r, " / ");
    text::push_str(&mut r, crate::platform::session_name(output.adapter.session));
    text::push_str(&mut r, "\ntext_len: ");
    let n = text::format_u64(output.text_len as u64);
    text::push_str(&mut r, n.as_str());
    text::push_str(&mut r, "\ntext: ");
    text::push_str(&mut r, output.text.as_str());
    text::push_str(&mut r, "\nnotes: ");
    let notes = notes_text_exec(&output.notes);
    text::push_str(&mut r, notes.as_str());
    text::push_str(&mut r, "\n");
    r
}

/// The human rendering of a served selection.
pub fn render_clipboard_set_human(output: &ClipboardSetOutput) -> (r: String)
    ensures
        r@ == "clipboard selection: "@ + selection_debug_name(output.selection) + "\nplatform: "@ + platform_name_spec(
            output.adapter.platform,
        ) + " / "@ + session_name_spec(output.adapter.session) + "\ntext_len: "@ + decimal(output.text_len as nat)
            + "\nserve_ms: "@ + decimal(output.serve_ms as nat) + "\nserved_requests: "@ + decimal(
            output.served_requests as nat,
        ) + "\nnotes: "@ + notes_text(text::strings_view(output.notes@)) + "\n"@,
{
    let mut r = owned("clipboard selection: ");
    text::push_str(&mut r, selection_debug(output.selection));
    text::push_str(&mut r, "\nplatform: ");
    text::push_str(&mut r, crate::platform::platform_name(output.adapter.platform));
    text::push_str(&mut r, " / ");
    text::push_str(&mut r, crate::platform::session_name(output.adapter.session));
    text::push_str(&mut r, "\ntext_len: ");
    let n = text::format_u64(output.text_len as u64);
    text::push_str(&mut r, n.as_str());
    text::push_str(&mut r, "\nserve_ms: ");
    let m = text::format_u64(output.serve_ms);
    text::push_str(&mut r, m.as_str());
    text::push_str(&mut r, "\nserved_requests: ");
    let k = text::format_u64(output.served_requests as u64);
    text::push_str(&mut r, k.as_str());
    text::push_str(&mut r, "\nnotes: ");
    let notes = notes_text_exec(&output.notes);
    text::push_str(&mut r, notes.as_str());
    text::push_str(&mut r, "\n");
    r
}

// ---------------------------------------------------------------------------
// The X11 selection protocol
// ---------------------------------------------------------------------------

/// Predefined X11 atoms.
pub const ATOM_NONE: u32 = 0;
pub const ATOM_PRIMARY: u32 = 1;
pub const ATOM_ATOM: u32 = 4;
pub const ATOM_STRING: u32 = 31;

/// The atoms interned for clipboard work.
#[derive(Debug, Clone, Copy, PartialEq, Eq, Structural)]
pub struct ClipboardAtoms {
    pub clipboard: u32,
    pub targets: u32,
    pub text: u32,
    pub utf8_string: u32,
    /// The property the helper window receives conversions in.
    pub transfer: u32,
}

/// The atom naming a selection.
pub fn selection_atom(atoms: &ClipboardAtoms, selection: ClipboardSelection) -> (r: u32)
    ensures
        r == match selection {
            ClipboardSelection::Clipboard => atoms.clipboard,
            ClipboardSelection::Primary => ATOM_PRIMARY,
        },
{
    match selection {
        ClipboardSelection::Clipboard => atoms.clipboard,
        ClipboardSelection::Primary => ATOM_PRIMARY,
    }
}

/// The conversions a reader asks for, in order, with their names.
pub fn conversion_targets(atoms: &ClipboardAtoms) -> (r: Vec<(u32, &'static str)>)
    ensures
        r@.len() == 3,
        r@[0].0 == atoms.utf8_string && r@[0].1@ == "UTF8_STRING"@,
        r@[1].0 == ATOM_STRING && r@[1].1@ == "STRING"@,
        r@[2].0 == atoms.text && r@[2].1@ == "TEXT"@,
{
    let mut r: Vec<(u32, &'static str)> = Vec::new();
    r.push((atoms.utf8_string, "UTF8_STRING"));
    r.push((ATOM_STRING, "STRING"));
    r.push((atoms.text, "TEXT"));
    r
}

/// How an owner answers another client's request for the selection.
#[derive(Debug, Clone, PartialEq, Eq)]
pub enum SelectionAnswer {
    /// Write the list of offered targets (as `ATOM`s) into `property`.
    Targets { property: u32, offered: Vec<u32> },
    /// Write the text's bytes into `property`, typed `type_atom`.
    Text { property: u32, type_atom: u32 },
    /// The target is not offered.
    Refuse,
}

/// Answers a selection request: the list of targets for `TARGETS`, the text
/// as `UTF8_STRING` for `UTF8_STRING` or `TEXT`, as `STRING` for `STRING`;
/// any other target is refused. The data goes into the requested property
/// (the target itself when none was named), and the notification names that
/// property, or `NONE` on refusal.
pub fn answer_selection_request(atoms: &ClipboardAtoms, target: u32, property: u32) -> (r: (SelectionAnswer, u32))
    ensures
        ({
            let p = if property == 0 { target } else { property };
            &&& target == atoms.targets ==> r.0 == SelectionAnswer::Targets {
                property: p,
                offered: r.0->offered,
            } && r.0->offered@ == seq![atoms.utf8_string, ATOM_STRING, atoms.text, atoms.targets] && r.1 == p
            &&& target != atoms.targets && (target == atoms.utf8_string || target == atoms.text) ==> r.0
                == SelectionAnswer::Text { property: p, type_atom: atoms.utf8_string } && r.1 == p
            &&& target != atoms.targets && target != atoms.utf8_string && target != atoms.text && target == ATOM_STRING
                ==> r.0 == SelectionAnswer::Text { property: p, type_atom: ATOM_STRING } && r.1 == p
            &&& target != atoms.targets && target != atoms.utf8_string && target != atoms.text && target != ATOM_STRING
                ==> r.0 == SelectionAnswer::Refuse && r.1 == ATOM_NONE
        }),
{
    let p = if property == 0 { target } else { property };
    if target == atoms.targets {
        let mut offered: Vec<u32> = Vec::new();
        offered.push(atoms.utf8_string);
        offered.push(ATOM_STRING);
        offered.push(atoms.text);
        offered.push(atoms.targets);
        assert(offered@ =~= seq![atoms.utf8_string, ATOM_STRING, atoms.text, atoms.targets]);
        (SelectionAnswer::Targets { property: p, offered }, p)
    } else if target == atoms.utf8_string || target == atoms.text {
        (SelectionAnswer::Text { property: p, type_atom: atoms.utf8_string }, p)
    } else if target == ATOM_STRING {
        (SelectionAnswer::Text { property: p, type_atom: ATOM_STRING }, p)
    } else {
        (SelectionAnswer::Refuse, ATOM_NONE)
    }
}

/// What a conversion reply holds.
#[derive(Debug, Clone, Copy, PartialEq, Eq, Structural)]
pub enum ConversionReply {
    /// No data for this target: try the next one.
    Missing,
    /// The owner wants an incremental transfer, which is not supported.
    Incremental,
    /// Text data.
    Text,
}

/// Classifies the answer to one conversion: no property or a `TARGETS`
/// reply means no data; an `INCR`-typed reply is an incremental transfer.
pub fn classify_conversion(atoms: &ClipboardAtoms, notify_property: u32, reply_type: u32, reply_type_name: Option<&str>) -> (r: ConversionReply)
    ensures
        notify_property == 0 ==> r == ConversionReply::Missing,
        notify_property != 0 && reply_type == atoms.targets ==> r == ConversionReply::Missing,
        notify_property != 0 && reply_type != atoms.targets ==> (r == ConversionReply::Incremental <==> (
        reply_type_name matches Some(n) && n@ == "INCR"@)),
        notify_property != 0 && reply_type != atoms.targets ==> r != ConversionReply::Missing,
{
    if notify_property == 0 || reply_type == atoms.targets {
        return ConversionReply::Missing;
    }
    match reply_type_name {
        Some(n) => {
            let v = text::chars_of(n);
            if text::is(v.as_slice(), "INCR") {
                ConversionReply::Incremental
            } else {
                ConversionReply::Text
            }
        },
        None => ConversionReply::Text,
    }
}

/// The note after a successful read.
pub fn read_note(selection: ClipboardSelection, owner: u32, target_name: &str) -> (r: String)
    ensures
        r@ == "Read X11 "@ + selection_label(selection) + " selection from owner 0x"@ + hex(owner as nat) + " using target "@
            + target_name@ + "."@,
{
    let mut r = owned("Read X11 ");
    text::push_str(&mut r, selection.as_str());
    text::push_str(&mut r, " selection from owner 0x");
    let h = text::format_hex(owner as u64);
    text::push_str(&mut r, h.as_str());
    text::push_str(&mut r, " using target ");
    text::push_str(&mut r, target_name);
    text::push_str(&mut r, ".");
    r
}

/// Nobody owns the selection.
pub fn selection_unowned_error(selection: ClipboardSelection) -> (e: TendrilError)
    ensures
        e.is_structured(),
        e.category_spec() == ErrorCategory::ExecutionFailure,
        e.code_spec() == "clipboard_selection_unowned"@,
        e.message_spec() == "X11 "@ + selection_label(selection)
            + " selection has no owner; copy text in the source application first or use `tendril clipboard set --text ...`"@,
        e.detail_spec("selection"@) matches Some(DetailValue::Text(s)) && s@ == selection_label(selection),
{
    let mut message = owned("X11 ");
    text::push_str(&mut message, selection.as_str());
    text::push_str(
        &mut message,
        " selection has no owner; copy text in the source application first or use `tendril clipboard set --text ...`",
    );
    proof {
        reveal_strlit("selection");
        reveal_strlit("suggested_action");
        assert("selection"@.len() == 9 && "suggested_action"@.len() == 16);
    }
    TendrilError::execution_failure("clipboard_selection_unowned", message).with_detail_entry(
        "selection",
        DetailValue::Text(owned(selection.as_str())),
    ).with_detail_entry(
        "suggested_action",
        DetailValue::Text(
            owned(
                "Copy from the browser with Ctrl+C, then immediately run `tendril clipboard get --json`; X11 selection ownership is process-owned and may disappear when the source exits.",
            ),
        ),
    )
}

/// The owner offered none of the text targets.
pub fn conversion_failed_error(selection: ClipboardSelection, owner: u32, attempted: Vec<String>) -> (e: TendrilError)
    ensures
        e.is_structured(),
        e.category_spec() == ErrorCategory::ExecutionFailure,
        e.code_spec() == "clipboard_conversion_failed"@,
        e.message_spec() == "X11 "@ + selection_label(selection) + " selection owner 0x"@ + hex(owner as nat)
            + " did not provide UTF-8 or STRING text data"@,
        e.detail_spec("attempted_targets"@) == Some(DetailValue::Texts(attempted)),
        e.detail_spec("owner"@) matches Some(DetailValue::Text(o)) && o@ == "0x"@ + hex(owner as nat),
{
    let mut message = owned("X11 ");
    text::push_str(&mut message, selection.as_str());
    text::push_str(&mut message, " selection owner 0x");
    let h = text::format_hex(owner as u64);
    text::push_str(&mut message, h.as_str());
    text::push_str(&mut message, " did not provide UTF-8 or STRING text data");
    let mut owner_text = owned("0x");
    text::push_str(&mut owner_text, h.as_str());
    proof {
        reveal_strlit("selection");
        reveal_strlit("owner");
        reveal_strlit("attempted_targets");
        reveal_strlit("suggested_action");
        assert("selection"@.len() == 9 && "owner"@.len() == 5 && "attempted_targets"@.len() == 17 && "suggested_action"@.len() == 16);
    }
    TendrilError::execution_failure("clipboard_conversion_failed", message).with_detail_entry(
        "selection",
        DetailValue::Text(owned(selection.as_str())),
    ).with_detail_entry("owner", DetailValue::Text(owner_text)).with_detail_entry(
        "attempted_targets",
        DetailValue::Texts(attempted),
    ).with_detail_entry(
        "suggested_action",
        DetailValue::Text(
            owned(
                "The source application may own a non-text selection or use a large INCR transfer not yet supported by Tendril; retry with a plain text selection or file a backend-specific clipboard bead.",
            ),
        ),
    )
}

/// The owner asked for an incremental transfer.
pub fn incremental_transfer_error() -> (e: TendrilError)
    ensures
        e.is_structured(),
        e.category_spec() == ErrorCategory::ExecutionFailure,
        e.code_spec() == "clipboard_incr_not_supported"@,
{
    TendrilError::execution_failure(
        "clipboard_incr_not_supported",
        owned(
            "X11 clipboard owner requested an incremental INCR transfer; Tendril currently supports direct text selections only",
        ),
    ).with_detail_entry(
        "suggested_action",
        DetailValue::Text(
            owned("Retry with a smaller plain-text clipboard payload or file a follow-up for X11 INCR clipboard transfers."),
        ),
    )
}

/// The owner did not answer before the deadline.
pub fn conversion_timeout_error(target_name: Option<String>) -> (e: TendrilError)
    ensures
        e.is_structured(),
        e.category_spec() == ErrorCategory::Timeout,
        e.code_spec() == "clipboard_timeout"@,
        e.detail_spec("target"@) == Some(
            match target_name {
                Some(n) => DetailValue::Text(n),
                None => DetailValue::Null,
            },
        ),
{
    let target = match target_name {
        Some(n) => DetailValue::Text(n),
        None => DetailValue::Null,
    };
    proof {
        reveal_strlit("target");
        reveal_strlit("suggested_action");
        assert("target"@.len() == 6 && "suggested_action"@.len() == 16);
    }
    TendrilError::timeout(
        "clipboard_timeout",
        owned("timed out waiting for the X11 selection owner to provide clipboard data"),
    ).with_detail_entry("target", target).with_detail_entry(
        "suggested_action",
        DetailValue::Text(
            owned("Verify the source application still owns the clipboard and retry with a plain text selection."),
        ),
    )
}

/// Taking the selection did not make the helper window its owner.
pub fn ownership_failed_error(selection: ClipboardSelection, owner: u32, window: u32) -> (e: TendrilError)
    ensures
        e.is_structured(),
        e.category_spec() == ErrorCategory::ExecutionFailure,
        e.code_spec() == "clipboard_set_owner_failed"@,
        e.message_spec() == "failed to own X11 "@ + selection_label(selection) + " selection; current owner is 0x"@
            + hex(owner as nat) + ", expected helper window 0x"@ + hex(window as nat),
{
    let mut message = owned("failed to own X11 ");
    text::push_str(&mut message, selection.as_str());
    text::push_str(&mut message, " selection; current owner is 0x");
    let o = text::format_hex(owner as u64);
    text::push_str(&mut message, o.as_str());
    text::push_str(&mut message, ", expected helper window 0x");
    let w = text::format_hex(window as u64);
    text::push_str(&mut message, w.as_str());
    TendrilError::execution_failure("clipboard_set_owner_failed", message).with_detail_entry(
        "selection",
        DetailValue::Text(owned(selection.as_str())),
    )
}

/// A failed X11 request during clipboard work.
pub fn clipboard_error(code: &str, selection: ClipboardSelection, error: &str) -> (e: TendrilError)
    ensures
        e.is_structured(),
        e.category_spec() == ErrorCategory::ExecutionFailure,
        e.code_spec() == code@,
        e.message_spec() == "X11 "@ + selection_label(selection) + " clipboard operation failed: "@ + error@,
        e.detail_spec("selection"@) matches Some(DetailValue::Text(s)) && s@ == selection_label(selection),
{
    let mut message = owned("X11 ");
    text::push_str(&mut message, selection.as_str());
    text::push_str(&mut message, " clipboard operation failed: ");
    text::push_str(&mut message, error);
    TendrilError::execution_failure(code, message).with_detail_entry("selection", DetailValue::Text(owned(selection.as_str())))
}

/// The notes when a process starts serving a selection.
pub fn serving_notes(selection: ClipboardSelection, window: u32, serve_ms: u64) -> (r: Vec<String>)
    ensures
        r@.len() == if serve_ms == 0 { 2int } else { 1int },
        r@[0]@ == "Owned X11 "@ + selection_label(selection) + " selection as helper window 0x"@ + hex(window as nat)
            + "; serving requests for "@ + decimal(serve_ms as nat) + "ms."@,
        serve_ms == 0 ==> r@[1]@
            == "serve_ms=0 releases the selection when this process exits; consumers must request before exit for a persistent paste."@,
{
    let mut first = owned("Owned X11 ");
    text::push_str(&mut first, selection.as_str());
    text::push_str(&mut first, " selection as helper window 0x");
    let w = text::format_hex(window as u64);
    text::push_str(&mut first, w.as_str());
    text::push_str(&mut first, "; serving requests for ");
    let ms = text::format_u64(serve_ms);
    text::push_str(&mut first, ms.as_str());
    text::push_str(&mut first, "ms.");
    let mut notes: Vec<String> = Vec::new();
    notes.push(first);
    if serve_ms == 0 {
        notes.push(
            owned(
                "serve_ms=0 releases the selection when this process exits; consumers must request before exit for a persistent paste.",
            ),
        );
    }
    notes
}

/// An event seen while serving a selection.
#[derive(Debug, Clone, Copy, PartialEq, Eq, Structural)]
pub enum ServeEvent {
    /// Another client asks the owner `owner` for the selection `selection`.
    Request { owner: u32, selection: u32 },
    /// The owner `owner` lost the selection.
    Clear { owner: u32 },
    Other,
}

/// What the serving loop does with an event.
#[derive(Debug, Clone, Copy, PartialEq, Eq, Structural)]
pub enum ServeAction {
    /// Answer the request (and count it).
    Answer,
    /// Another client took the selection: stop serving.
    Stop,
    Ignore,
}

/// Requests addressed to this helper window for this selection are
/// answered; losing the selection ends serving; anything else is ignored.
pub fn serve_action(event: ServeEvent, window: u32, selection: u32) -> (r: ServeAction)
    ensures
        r == match event {
            ServeEvent::Request { owner, selection: s } => if owner == window && s == selection {
                ServeAction::Answer
            } else {
                ServeAction::Ignore
            },
            ServeEvent::Clear { owner } => if owner == window {
                ServeAction::Stop
            } else {
                ServeAction::Ignore
            },
            ServeEvent::Other => ServeAction::Ignore,
        },
{
    match event {
        ServeEvent::Request { owner, selection: s } => if owner == window && s == selection {
            ServeAction::Answer
        } else {
            ServeAction::Ignore
        },
        ServeEvent::Clear { owner } => if owner == window {
            ServeAction::Stop
        } else {
            ServeAction::Ignore
        },
        ServeEvent::Other => ServeAction::Ignore,
    }
}

pub open spec fn replaced_note() -> Seq<char> {
    "Selection ownership was replaced by another X11 client before serve_ms elapsed."@
}

/// The note when another client takes the selection.
pub fn ownership_replaced_note() -> (r: String)
    ensures
        r@ == replaced_note(),
{
    owned("Selection ownership was replaced by another X11 client before serve_ms elapsed.")
}

} // verus!
