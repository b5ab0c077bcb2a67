//! The MCP tool surface: which tools exist, what each one does with its
//! request (the same command the CLI runs), and what each JSON-RPC request
//! is answered with.
use vstd::prelude::*;

use crate::cli::{ClipboardCommand, ClipboardGetCommand, ClipboardSetCommand, ClipboardSubcommand, Command, PermissionsCommand};
use crate::commands::{
    CaptureRequest, ClipboardGetRequest, ClipboardSetRequest, ElementListRequest, ListRequest, ListenRequest, RunRequest,
    TargetScope,
};
use crate::envelope::{route_request, route_spec, ErrorCategory, McpRoute, StdioServerConfig};
use crate::error::TendrilError;
use crate::text::{self, owned};

verus! {

/// The tools the server registers.
#[derive(Debug, Clone, Copy, PartialEq, Eq, Structural)]
pub enum ToolKind {
    List,
    ListElements,
    Capture,
    Run,
    Listen,
    ClipboardGet,
    ClipboardSet,
    Permissions,
    SelfUpdateStatus,
    SelfUpdateCheck,
    SelfUpdateRun,
    FeedbackReport,
    FeedbackStatus,
}

/// The registered tool names, in registration order.
pub open spec fn tool_names_spec() -> Seq<Seq<char>> {
    seq![
        "list"@,
        "list_elements"@,
        "capture"@,
        "run"@,
        "listen"@,
        "clipboard_get"@,
        "clipboard_set"@,
        "permissions"@,
        "self_update_status"@,
        "self_update_check"@,
        "self_update_run"@,
        "feedback_report"@,
        "feedback_status"@,
    ]
}

/// The name a tool is registered under.
pub open spec fn tool_name_spec(kind: ToolKind) -> Seq<char> {
    match kind {
        ToolKind::List => "list"@,
        ToolKind::ListElements => "list_elements"@,
        ToolKind::Capture => "capture"@,
        ToolKind::Run => "run"@,
        ToolKind::Listen => "listen"@,
        ToolKind::ClipboardGet => "clipboard_get"@,
        ToolKind::ClipboardSet => "clipboard_set"@,
        ToolKind::Permissions => "permissions"@,
        ToolKind::SelfUpdateStatus => "self_update_status"@,
        ToolKind::SelfUpdateCheck => "self_update_check"@,
        ToolKind::SelfUpdateRun => "self_update_run"@,
        ToolKind::FeedbackReport => "feedback_report"@,
        ToolKind::FeedbackStatus => "feedback_status"@,
    }
}

/// The tool a name selects.
pub open spec fn tool_kind_spec(name: Seq<char>) -> Option<ToolKind> {
    if name == "list"@ {
        Some(ToolKind::List)
    } else if name == "list_elements"@ {
        Some(ToolKind::ListElements)
    } else if name == "capture"@ {
        Some(ToolKind::Capture)
    } else if name == "run"@ {
        Some(ToolKind::Run)
    } else if name == "listen"@ {
        Some(ToolKind::Listen)
    } else if name == "clipboard_get"@ {
        Some(ToolKind::ClipboardGet)
    } else if name == "clipboard_set"@ {
        Some(ToolKind::ClipboardSet)
    } else if name == "permissions"@ {
        Some(ToolKind::Permissions)
    } else if name == "self_update_status"@ {
        Some(ToolKind::SelfUpdateStatus)
    } else if name == "self_update_check"@ {
        Some(ToolKind::SelfUpdateCheck)
    } else if name == "self_update_run"@ {
        Some(ToolKind::SelfUpdateRun)
    } else if name == "feedback_report"@ {
        Some(ToolKind::FeedbackReport)
    } else if name == "feedback_status"@ {
        Some(ToolKind::FeedbackStatus)
    } else {
        None
    }
}

/// The registered tool names, in registration order.
pub fn tool_names() -> (r: Vec<&'static str>)
    ensures
        r@.map_values(|s: &str| s@) == tool_names_spec(),
{
    let r = vec![
        "list",
        "list_elements",
        "capture",
        "run",
        "listen",
        "clipboard_get",
        "clipboard_set",
        "permissions",
        "self_update_status",
        "self_update_check",
        "self_update_run",
        "feedback_report",
        "feedback_status",
    ];
    assert(r@.map_values(|s: &str| s@) =~= tool_names_spec());
    r
}

/// The tool a name selects, if one is registered under it.
pub fn tool_kind(name: &str) -> (r: Option<ToolKind>)
    ensures
        r == tool_kind_spec(name@),
{
    let v = text::chars_of(name);
    let v = v.as_slice();
    if text::is(v, "list") {
        Some(ToolKind::List)
    } else if text::is(v, "list_elements") {
        Some(ToolKind::ListElements)
    } else if text::is(v, "capture") {
        Some(ToolKind::Capture)
    } else if text::is(v, "run") {
        Some(ToolKind::Run)
    } else if text::is(v, "listen") {
        Some(ToolKind::Listen)
    } else if text::is(v, "clipboard_get") {
        Some(ToolKind::ClipboardGet)
    } else if text::is(v, "clipboard_set") {
        Some(ToolKind::ClipboardSet)
    } else if text::is(v, "permissions") {
        Some(ToolKind::Permissions)
    } else if text::is(v, "self_update_status") {
        Some(ToolKind::SelfUpdateStatus)
    } else if text::is(v, "self_update_check") {
        Some(ToolKind::SelfUpdateCheck)
    } else if text::is(v, "self_update_run") {
        Some(ToolKind::SelfUpdateRun)
    } else if text::is(v, "feedback_report") {
        Some(ToolKind::FeedbackReport)
    } else if text::is(v, "feedback_status") {
        Some(ToolKind::FeedbackStatus)
    } else {
        None
    }
}

/// The name a tool kind is registered under.
pub fn tool_name(kind: ToolKind) -> (r: &'static str)
    ensures
        r@ == tool_name_spec(kind),
{
    match kind {
        ToolKind::List => "list",
        ToolKind::ListElements => "list_elements",
        ToolKind::Capture => "capture",
        ToolKind::Run => "run",
        ToolKind::Listen => "listen",
        ToolKind::ClipboardGet => "clipboard_get",
        ToolKind::ClipboardSet => "clipboard_set",
        ToolKind::Permissions => "permissions",
        ToolKind::SelfUpdateStatus => "self_update_status",
        ToolKind::SelfUpdateCheck => "self_update_check",
        ToolKind::SelfUpdateRun => "self_update_run",
        ToolKind::FeedbackReport => "feedback_report",
        ToolKind::FeedbackStatus => "feedback_status",
    }
}

/// The listed names are the names of the listed tools, in the same order,
/// and each name selects exactly the tool registered under it.
pub proof fn law_tool_names_select_their_tools()
    ensures
        tool_names_spec().len() == all_tools().len(),
        forall|i: int| 0 <= i < all_tools().len() ==> tool_names_spec()[i] == tool_name_spec(#[trigger] all_tools()[i]),
        forall|k: ToolKind| #[trigger] tool_kind_spec(tool_name_spec(k)) == Some(k),
        forall|i: int| 0 <= i < tool_names_spec().len() ==> (#[trigger] tool_kind_spec(tool_names_spec()[i])) is Some,
{
    reveal_strlit("list");
    reveal_strlit("list_elements");
    reveal_strlit("capture");
    reveal_strlit("run");
    reveal_strlit("listen");
    reveal_strlit("clipboard_get");
    reveal_strlit("clipboard_set");
    reveal_strlit("permissions");
    reveal_strlit("self_update_status");
    reveal_strlit("self_update_check");
    reveal_strlit("self_update_run");
    reveal_strlit("feedback_report");
    reveal_strlit("feedback_status");
    assert("list"@.len() == 4);
    assert("list_elements"@.len() == 13);
    assert("capture"@.len() == 7);
    assert("run"@.len() == 3);
    assert("listen"@.len() == 6);
    assert("clipboard_get"@.len() == 13);
    assert("clipboard_set"@.len() == 13);
    assert("permissions"@.len() == 11);
    assert("self_update_status"@.len() == 18);
    assert("self_update_check"@.len() == 17);
    assert("self_update_run"@.len() == 15);
    assert("feedback_report"@.len() == 15);
    assert("feedback_status"@.len() == 15);
    assert("clipboard_get"@[0] != "list_elements"@[0]);
    assert("clipboard_set"@[0] != "list_elements"@[0]);
    assert("clipboard_set"@[10] != "clipboard_get"@[10]);
    assert("feedback_report"@[0] != "self_update_run"@[0]);
    assert("feedback_status"@[0] != "self_update_run"@[0]);
    assert("feedback_status"@[9] != "feedback_report"@[9]);
    assert forall|k: ToolKind| #[trigger] tool_kind_spec(tool_name_spec(k)) == Some(k) by {
        match k {
            ToolKind::List => {},
            ToolKind::ListElements => {},
            ToolKind::Capture => {},
            ToolKind::Run => {},
            ToolKind::Listen => {},
            ToolKind::ClipboardGet => {},
            ToolKind::ClipboardSet => {},
            ToolKind::Permissions => {},
            ToolKind::SelfUpdateStatus => {},
            ToolKind::SelfUpdateCheck => {},
            ToolKind::SelfUpdateRun => {},
            ToolKind::FeedbackReport => {},
            ToolKind::FeedbackStatus => {},
        }
    }
}

/// The one-line description each tool is listed with.
pub fn tool_description(kind: ToolKind) -> (r: &'static str)
    ensures
        r@ == match kind {
            ToolKind::List => "Discover available desktop targets."@,
            ToolKind::ListElements => "Discover lower-level UI elements for a display/window target or globally."@,
            ToolKind::Capture => "Capture a screenshot from a display or window target."@,
            ToolKind::Run => "Execute input against a specific target."@,
            ToolKind::Listen => "Capture audio from the system loopback or microphone (probe-only on unwired platforms)."@,
            ToolKind::ClipboardGet => "Read text from the Linux/X11 clipboard or primary selection."@,
            ToolKind::ClipboardSet => "Own and serve text through the Linux/X11 clipboard or primary selection."@,
            ToolKind::Permissions => "Report Screen Recording, Accessibility, and Microphone permission status for the host platform."@,
            ToolKind::SelfUpdateStatus => "Report the installed Tendril version and its release channel."@,
            ToolKind::SelfUpdateCheck => "Check whether a newer Tendril release is available."@,
            ToolKind::SelfUpdateRun => "Download and install the latest Tendril release."@,
            ToolKind::FeedbackReport => "Send a feedback report about Tendril."@,
            ToolKind::FeedbackStatus => "Report where feedback reports are delivered."@,
        },
{
    match kind {
        ToolKind::List => "Discover available desktop targets.",
        ToolKind::ListElements => "Discover lower-level UI elements for a display/window target or globally.",
        ToolKind::Capture => "Capture a screenshot from a display or window target.",
        ToolKind::Run => "Execute input against a specific target.",
        ToolKind::Listen => "Capture audio from the system loopback or microphone (probe-only on unwired platforms).",
        ToolKind::ClipboardGet => "Read text from the Linux/X11 clipboard or primary selection.",
        ToolKind::ClipboardSet => "Own and serve text through the Linux/X11 clipboard or primary selection.",
        ToolKind::Permissions => "Report Screen Recording, Accessibility, and Microphone permission status for the host platform.",
        ToolKind::SelfUpdateStatus => "Report the installed Tendril version and its release channel.",
        ToolKind::SelfUpdateCheck => "Check whether a newer Tendril release is available.",
        ToolKind::SelfUpdateRun => "Download and install the latest Tendril release.",
        ToolKind::FeedbackReport => "Send a feedback report about Tendril.",
        ToolKind::FeedbackStatus => "Report where feedback reports are delivered.",
    }
}

/// A tool call's request, as the tool's request type reads its arguments.
#[derive(Debug, Clone)]
pub enum ToolRequest {
    List(ListRequest),
    ListElements(ElementListRequest),
    Capture(CaptureRequest),
    Run(RunRequest),
    Listen(ListenRequest),
    ClipboardGet(ClipboardGetRequest),
    ClipboardSet(ClipboardSetRequest),
    Permissions,
    SelfUpdateStatus,
    SelfUpdateCheck,
    SelfUpdateRun,
    FeedbackReport,
    FeedbackStatus,
}

/// What a tool call does: the target scope and the command that the CLI
/// runs for the same request, and (for `listen`) where the audio goes.
pub struct ToolCommand {
    pub target: TargetScope,
    pub command: Command,
}

/// The scope of a tool that acts on no target.
pub open spec fn unscoped() -> TargetScope {
    TargetScope { window: None, display: None, camera: None, x11_display: None }
}

fn no_scope() -> (t: TargetScope)
    ensures
        t == unscoped(),
{
    TargetScope { window: None, display: None, camera: None, x11_display: None }
}

fn copy_opt(o: &Option<String>) -> (r: Option<String>)
    ensures
        r == *o,
{
    match o {
        Some(s) => Some(s.clone()),
        None => None,
    }
}

fn copy_scope(t: &TargetScope) -> (r: TargetScope)
    ensures
        r == *t,
{
    TargetScope {
        window: copy_opt(&t.window),
        display: copy_opt(&t.display),
        camera: copy_opt(&t.camera),
        x11_display: copy_opt(&t.x11_display),
    }
}

/// `e` is the error of a call to `kind`, a tool whose service this build
/// does not carry: an unsupported capability, `tool_unavailable`, no details.
pub open spec fn is_unavailable_tool(e: TendrilError, kind: ToolKind) -> bool {
    &&& e.is_structured()
    &&& e.category_spec() == ErrorCategory::UnsupportedCapability
    &&& e.code_spec() == "tool_unavailable"@
    &&& e.message_spec() == "the `"@ + tool_name_spec(kind) + "` tool is not available in this build"@
    &&& forall|k: Seq<char>| e.detail_spec(k) is None
}

fn unavailable_tool(kind: ToolKind) -> (e: TendrilError)
    ensures
        is_unavailable_tool(e, kind),
{
    let mut m = owned("the `");
    text::push_str(&mut m, tool_name(kind));
    text::push_str(&mut m, "` tool is not available in this build");
    TendrilError::unsupported_capability("tool_unavailable", m)
}

/// The command a tool request runs: each tool runs the CLI command of the
/// same name on the request's options, scoped to the request's target (the
/// `list` tool to its X11 display alone). The release-update and feedback
/// tools answer that they are not available in this build.
pub fn tool_command(request: &ToolRequest) -> (r: Result<ToolCommand, TendrilError>)
    ensures
        match request {
            ToolRequest::List(q) => r matches Ok(c) && c.target == (TargetScope {
                window: None,
                display: None,
                camera: None,
                x11_display: q.x11_display,
            }) && c.command == Command::List(q.options),
            ToolRequest::ListElements(q) => r matches Ok(c) && c.target == q.target && c.command == Command::ListElements(
                q.options,
            ),
            ToolRequest::Capture(q) => r matches Ok(c) && c.target == q.target && c.command == Command::Capture(q.options),
            ToolRequest::Run(q) => r matches Ok(c) && c.target == q.target && c.command == Command::Run(q.options),
            ToolRequest::Listen(q) => r matches Ok(c) && c.target == unscoped() && (c.command matches Command::Listen(l)
                && l.source == q.source && l.duration_ms == q.duration_ms && l.format == q.format && l.output == q.output),
            ToolRequest::ClipboardGet(q) => r matches Ok(c) && c.target == unscoped() && c.command == Command::Clipboard(
                ClipboardCommand {
                    command: ClipboardSubcommand::Get(ClipboardGetCommand { selection: q.selection, timeout_ms: q.timeout_ms }),
                },
            ),
            ToolRequest::ClipboardSet(q) => r matches Ok(c) && c.target == unscoped() && c.command == Command::Clipboard(
                ClipboardCommand {
                    command: ClipboardSubcommand::SetSelection(
                        ClipboardSetCommand { selection: q.selection, text: q.text, serve_ms: q.serve_ms },
                    ),
                },
            ),
            ToolRequest::Permissions => r matches Ok(c) && c.target == unscoped() && c.command == Command::Permissions(
                PermissionsCommand {  },
            ),
            ToolRequest::SelfUpdateStatus => r matches Err(e) && is_unavailable_tool(e, ToolKind::SelfUpdateStatus),
            ToolRequest::SelfUpdateCheck => r matches Err(e) && is_unavailable_tool(e, ToolKind::SelfUpdateCheck),
            ToolRequest::SelfUpdateRun => r matches Err(e) && is_unavailable_tool(e, ToolKind::SelfUpdateRun),
            ToolRequest::FeedbackReport => r matches Err(e) && is_unavailable_tool(e, ToolKind::FeedbackReport),
            ToolRequest::FeedbackStatus => r matches Err(e) && is_unavailable_tool(e, ToolKind::FeedbackStatus),
        },
{
    let c = match request {
        ToolRequest::List(q) => ToolCommand {
            target: TargetScope { window: None, display: None, camera: None, x11_display: copy_opt(&q.x11_display) },
            command: Command::List(crate::cli::ListCommand { all_apps: q.options.all_apps }),
        },
        ToolRequest::ListElements(q) => ToolCommand {
            target: copy_scope(&q.target),
            command: Command::ListElements(crate::cli::ElementListCommand { include_offscreen: q.options.include_offscreen }),
        },
        ToolRequest::Capture(q) => ToolCommand {
            target: copy_scope(&q.target),
            command: Command::Capture(
                crate::cli::CaptureCommand {
                    max_width: q.options.max_width,
                    max_height: q.options.max_height,
                    format: copy_opt(&q.options.format),
                    compression: q.options.compression,
                    output: copy_opt(&q.options.output),
                    timeout_ms: q.options.timeout_ms,
                },
            ),
        },
        ToolRequest::Run(q) => ToolCommand {
            target: copy_scope(&q.target),
            command: Command::Run(
                crate::cli::RunCommand {
                    no_lock: q.options.no_lock,
                    lock_timeout_ms: q.options.lock_timeout_ms,
                    lock_stale_ms: q.options.lock_stale_ms,
                    lock_path: copy_opt(&q.options.lock_path),
                    input_definition: copy_opt(&q.options.input_definition),
                    restore_focus: q.options.restore_focus,
                    no_restore_focus: q.options.no_restore_focus,
                },
            ),
        },
        ToolRequest::Listen(q) => ToolCommand { target: no_scope(), command: Command::Listen(q.to_listen_command()) },
        ToolRequest::ClipboardGet(q) => ToolCommand {
            target: no_scope(),
            command: Command::Clipboard(
                ClipboardCommand {
                    command: ClipboardSubcommand::Get(
                        ClipboardGetCommand { selection: copy_opt(&q.selection), timeout_ms: q.timeout_ms },
                    ),
                },
            ),
        },
        ToolRequest::ClipboardSet(q) => ToolCommand {
            target: no_scope(),
            command: Command::Clipboard(
                ClipboardCommand {
                    command: ClipboardSubcommand::SetSelection(
                        ClipboardSetCommand { selection: copy_opt(&q.selection), text: q.text.clone(), serve_ms: q.serve_ms },
                    ),
                },
            ),
        },
        ToolRequest::Permissions => ToolCommand { target: no_scope(), command: Command::Permissions(PermissionsCommand {  }) },
        ToolRequest::SelfUpdateStatus => return Err(unavailable_tool(ToolKind::SelfUpdateStatus)),
        ToolRequest::SelfUpdateCheck => return Err(unavailable_tool(ToolKind::SelfUpdateCheck)),
        ToolRequest::SelfUpdateRun => return Err(unavailable_tool(ToolKind::SelfUpdateRun)),
        ToolRequest::FeedbackReport => return Err(unavailable_tool(ToolKind::FeedbackReport)),
        ToolRequest::FeedbackStatus => return Err(unavailable_tool(ToolKind::FeedbackStatus)),
    };
    Ok(c)
}

/// The error of a call to a tool that is not registered.
pub fn unknown_tool(name: &str) -> (e: TendrilError)
    ensures
        e.is_structured(),
        e.category_spec() == ErrorCategory::Validation,
        e.code_spec() == "unknown_tool"@,
        e.message_spec() == "unknown tool `"@ + name@ + "`"@,
        forall|k: Seq<char>| e.detail_spec(k) is None,
{
    let mut m = owned("unknown tool `");
    text::push_str(&mut m, name);
    text::push_str(&mut m, "`");
    TendrilError::structured(ErrorCategory::Validation, "unknown_tool", m)
}

/// The answer to one JSON-RPC request (the request's `id` is echoed back by
/// the transport).
#[derive(Debug, Clone, PartialEq, Eq)]
pub enum McpReply {
    /// `initialize`: the protocol version, the server's name and version,
    /// and tools whose list does not change.
    Initialized { protocol_version: &'static str, server_name: String, server_version: String },
    /// `ping`: an empty result.
    Pong,
    /// `tools/list`: every registered tool.
    Tools { tools: Vec<ToolKind> },
    /// `tools/call`: run the tool and answer with its envelope (also run,
    /// unanswered, for a notification).
    CallTool { answered: bool },
    /// Any other method: JSON-RPC error `code` with `message`.
    MethodNotFound { code: i32, message: String },
    /// A notification: nothing is sent.
    Silent,
}

/// Every registered tool, in registration order.
pub open spec fn all_tools() -> Seq<ToolKind> {
    seq![
        ToolKind::List,
        ToolKind::ListElements,
        ToolKind::Capture,
        ToolKind::Run,
        ToolKind::Listen,
        ToolKind::ClipboardGet,
        ToolKind::ClipboardSet,
        ToolKind::Permissions,
        ToolKind::SelfUpdateStatus,
        ToolKind::SelfUpdateCheck,
        ToolKind::SelfUpdateRun,
        ToolKind::FeedbackReport,
        ToolKind::FeedbackStatus,
    ]
}

/// Answers one request by its method and whether it carries an `id`.
pub fn reply_for(method: &str, has_id: bool, server: &StdioServerConfig) -> (r: McpReply)
    ensures
        match route_spec(method@, has_id) {
            McpRoute::Initialize => r matches McpReply::Initialized { protocol_version, server_name, server_version }
                && protocol_version@ == "2024-11-05"@ && server_name == server.server_name && server_version
                == server.server_version,
            McpRoute::Ping => r == McpReply::Pong,
            McpRoute::ListTools => r matches McpReply::Tools { tools } && tools@ == all_tools(),
            McpRoute::CallTool => r == (McpReply::CallTool { answered: has_id }),
            McpRoute::UnsupportedMethod => r matches McpReply::MethodNotFound { code, message } && code == -32601i32
                && message@ == "unsupported MCP method `"@ + method@ + "`"@,
            McpRoute::Silent => r == McpReply::Silent,
        },
{
    match route_request(method, has_id) {
        McpRoute::Initialize => McpReply::Initialized {
            protocol_version: crate::envelope::protocol_version(),
            server_name: server.server_name.clone(),
            server_version: server.server_version.clone(),
        },
        McpRoute::Ping => McpReply::Pong,
        McpRoute::ListTools => {
            let tools = vec![
                ToolKind::List,
                ToolKind::ListElements,
                ToolKind::Capture,
                ToolKind::Run,
                ToolKind::Listen,
                ToolKind::ClipboardGet,
                ToolKind::ClipboardSet,
                ToolKind::Permissions,
                ToolKind::SelfUpdateStatus,
                ToolKind::SelfUpdateCheck,
                ToolKind::SelfUpdateRun,
                ToolKind::FeedbackReport,
                ToolKind::FeedbackStatus,
            ];
            assert(tools@ =~= all_tools());
            McpReply::Tools { tools }
        },
        McpRoute::CallTool => McpReply::CallTool { answered: has_id },
        McpRoute::UnsupportedMethod => {
            let mut m = owned("unsupported MCP method `");
            text::push_str(&mut m, method);
            text::push_str(&mut m, "`");
            McpReply::MethodNotFound { code: crate::envelope::METHOD_NOT_FOUND, message: m }
        },
        McpRoute::Silent => McpReply::Silent,
    }
}

} // verus!
