use tendril::cli::{ClipboardSubcommand, Command, ListCommand};
use tendril::commands::{ClipboardSetRequest, ListRequest, ListenRequest};
use tendril::envelope::StdioServerConfig;
use tendril::listen::audio_capability;
use tendril::envelope::ErrorCategory;
use tendril::mcp::{
    reply_for, tool_command, tool_description, tool_kind, tool_name, tool_names, unknown_tool, McpReply, ToolKind, ToolRequest,
};
use tendril::platform::{AdapterInfo, AudioBackend, DesktopSession, PlatformKind};

fn server() -> StdioServerConfig {
    StdioServerConfig { server_name: "tendril".to_owned(), server_version: "0.1.0".to_owned() }
}

#[test]
fn mcp_server_lists_initial_stdio_tools() {
    assert_eq!(
        tool_names(),
        vec![
            "list",
            "list_elements",
            "capture",
            "run",
            "listen",
            "clipboard_get",
            "clipboard_set",
            "permissions",
            "self_update_status",
            "self_update_check",
            "self_update_run",
            "feedback_report",
            "feedback_status"
        ]
    );
    for name in tool_names() {
        let kind = tool_kind(name).expect("every listed name selects a tool");
        assert_eq!(tool_name(kind), name);
    }
    assert_eq!(tool_kind("clipboard_set"), Some(ToolKind::ClipboardSet));
    assert_eq!(tool_kind("update_now"), None);
    assert_eq!(tool_description(ToolKind::List), "Discover available desktop targets.");
}

#[test]
fn mcp_requests_are_routed_to_their_replies() {
    match reply_for("initialize", true, &server()) {
        McpReply::Initialized { protocol_version, server_name, server_version } => {
            assert_eq!(protocol_version, "2024-11-05");
            assert_eq!(server_name, "tendril");
            assert_eq!(server_version, "0.1.0");
        },
        other => panic!("unexpected reply {other:?}"),
    }
    assert_eq!(reply_for("ping", true, &server()), McpReply::Pong);
    assert_eq!(reply_for("ping", false, &server()), McpReply::Silent);
    assert_eq!(reply_for("tools/call", false, &server()), McpReply::CallTool { answered: false });
    match reply_for("tools/list", true, &server()) {
        McpReply::Tools { tools } => {
            assert_eq!(tools.len(), 13);
            assert_eq!(tools[8], ToolKind::SelfUpdateStatus);
            assert_eq!(tools[12], ToolKind::FeedbackStatus);
        },
        other => panic!("unexpected reply {other:?}"),
    }
    assert_eq!(
        reply_for("resources/list", true, &server()),
        McpReply::MethodNotFound { code: -32601, message: "unsupported MCP method `resources/list`".to_owned() }
    );
    let unknown = unknown_tool("nope");
    assert_eq!(unknown.code(), "unknown_tool");
    assert_eq!(unknown.category(), ErrorCategory::Validation);
    assert_eq!(unknown.message(), "unknown tool `nope`");
}

#[test]
fn tool_requests_run_the_cli_commands_of_the_same_name() {
    let list = tool_command(&ToolRequest::List(ListRequest {
        options: ListCommand { all_apps: true },
        x11_display: Some(":99".to_owned()),
    }))
    .expect("list runs the list command");
    assert_eq!(list.target.x11_display.as_deref(), Some(":99"));
    assert!(matches!(list.command, Command::List(ListCommand { all_apps: true })));

    let listen = tool_command(&ToolRequest::Listen(ListenRequest {
        source: Some("microphone".to_owned()),
        duration_ms: Some(100),
        format: None,
        output: Some("/tmp/a.wav".to_owned()),
    }))
    .expect("listen runs the listen command");
    match listen.command {
        Command::Listen(c) => {
            assert_eq!(c.source.as_deref(), Some("microphone"));
            assert_eq!(c.output.as_deref(), Some("/tmp/a.wav"));
        },
        other => panic!("unexpected command {other:?}"),
    }

    let set = tool_command(&ToolRequest::ClipboardSet(ClipboardSetRequest {
        selection: None,
        text: "hi".to_owned(),
        serve_ms: Some(5),
    }))
    .expect("clipboard_set runs the clipboard command");
    match set.command {
        Command::Clipboard(c) => match c.command {
            ClipboardSubcommand::SetSelection(s) => assert_eq!((s.text.as_str(), s.serve_ms), ("hi", Some(5))),
            other => panic!("unexpected clipboard command {other:?}"),
        },
        other => panic!("unexpected command {other:?}"),
    }
}

#[test]
fn audio_capability_lists_the_planned_recorders() {
    let linux = AdapterInfo {
        platform: PlatformKind::Linux,
        session: DesktopSession::Wayland,
        audio_backend: Some(AudioBackend::PipeWire),
        stateless: true,
    };
    let report = audio_capability(linux);
    assert_eq!(report.backend, Some(AudioBackend::PipeWire));
    assert_eq!(report.supported_sample_rates_hz, vec![48_000, 48_000]);
    assert_eq!(report.supported_channel_counts, vec![2, 2]);
    let windows = AdapterInfo { platform: PlatformKind::Windows11, session: DesktopSession::WindowsDesktop, audio_backend: None, stateless: true };
    assert!(audio_capability(windows).supported_sample_rates_hz.is_empty());
}

#[test]
fn update_and_feedback_tools_answer_that_they_are_unavailable() {
    for (request, name) in [
        (ToolRequest::SelfUpdateStatus, "self_update_status"),
        (ToolRequest::SelfUpdateCheck, "self_update_check"),
        (ToolRequest::SelfUpdateRun, "self_update_run"),
        (ToolRequest::FeedbackReport, "feedback_report"),
        (ToolRequest::FeedbackStatus, "feedback_status"),
    ] {
        let error = match tool_command(&request) {
            Err(error) => error,
            Ok(_) => panic!("`{name}` should be unavailable"),
        };
        assert_eq!(error.code(), "tool_unavailable");
        assert_eq!(error.category(), ErrorCategory::UnsupportedCapability);
        assert_eq!(error.message(), format!("the `{name}` tool is not available in this build"));
    }
    assert_eq!(tool_description(ToolKind::SelfUpdateCheck), "Check whether a newer Tendril release is available.");
}
