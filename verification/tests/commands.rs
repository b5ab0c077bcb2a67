use tendril::cli::{
    AliasCommand, CaptureCommand, ClipboardGetCommand, ClipboardSetCommand, Command, ListenCommand, McpCommand,
    McpSubcommand, RunCommand, TendrilCli,
};
use tendril::clipboard::{ClipboardSelection, DEFAULT_CLIPBOARD_SERVE_MS, DEFAULT_CLIPBOARD_TIMEOUT_MS};
use tendril::commands::{
    build_alias_input, build_capture_input, build_clipboard_get_input, build_clipboard_set_input,
    build_execution_lock_request, build_listen_input, build_listen_response, build_run_input, check_listen_source,
    execute_alias, parse_bool_env, parse_u64_env, reject_inherited_target_flags_for_mcp,
    render_permission_request_human, render_permissions_human, unsupported_permission_request, CaptureRequest,
    LockEnvironment, PermissionRequestReport, PermissionsReport, RunRequest, TargetScope,
};
use tendril::config::{ImageFormat, TendrilConfig};
use tendril::envelope::ErrorCategory;
use tendril::listen::execute_listen_capture;
use tendril::model::{AudioFormat, AudioSourceKind, ShellKind};
use tendril::platform::{
    AdapterInfo, AudioBackend, AudioCapabilityReport, DesktopSession, PermissionKind, PermissionRequestOutcome,
    PermissionState, PermissionStatus, PlatformKind,
};

fn windows_adapter() -> AdapterInfo {
    AdapterInfo {
        platform: PlatformKind::Windows11,
        session: DesktopSession::WindowsDesktop,
        audio_backend: Some(AudioBackend::Wasapi),
        stateless: true,
    }
}

fn macos_adapter() -> AdapterInfo {
    AdapterInfo {
        platform: PlatformKind::MacOs,
        session: DesktopSession::MacOsWindowServer,
        audio_backend: Some(AudioBackend::CoreAudio),
        stateless: true,
    }
}

fn window_scope(id: &str) -> TargetScope {
    TargetScope { window: Some(id.to_owned()), display: None, camera: None, x11_display: None }
}

fn mcp_cli(window: Option<&str>, display: Option<&str>, json: bool) -> TendrilCli {
    TendrilCli {
        json,
        window: window.map(str::to_owned),
        display: display.map(str::to_owned),
        remote: None,
        wsl_tunnel: false,
        android: None,
        command: Some(Command::Mcp(McpCommand { command: McpSubcommand::Stdio })),
    }
}

fn assert_mcp_rejects(cli: &TendrilCli, expected_flag: &str) {
    let error = reject_inherited_target_flags_for_mcp(cli)
        .expect_err("MCP dispatch with inherited target flags should be rejected");
    assert_eq!(error.category(), ErrorCategory::Validation);
    let message = error.message();
    assert!(message.contains(expected_flag), "expected error to mention {expected_flag}: {message}");
    assert!(message.contains("MCP server does not honor"), "expected error to explain ignored flag: {message}");
}

#[test]
fn permissions_human_render_lists_states_and_actions() {
    let report = PermissionsReport {
        adapter: windows_adapter(),
        permissions: vec![
            PermissionStatus::granted(PermissionKind::ScreenCapture, "screen ok"),
            PermissionStatus::denied(PermissionKind::Accessibility, "accessibility missing", "open settings"),
            PermissionStatus::not_required(PermissionKind::Microphone, "mic not needed"),
        ],
    };
    let rendered = render_permissions_human(&report);
    assert!(rendered.contains("Screen Recording: granted"));
    assert!(rendered.contains("screen ok"));
    assert!(rendered.contains("Accessibility (input control): denied"));
    assert!(rendered.contains("-> open settings"));
    assert!(rendered.contains("Microphone: not required"));
}

#[test]
fn permissions_human_render_handles_empty_permissions() {
    let report = PermissionsReport { adapter: windows_adapter(), permissions: Vec::new() };
    let rendered = render_permissions_human(&report);
    assert!(rendered.contains("no platform permissions are required"));
}

#[test]
fn permission_request_human_render_lists_outcomes_and_current_status() {
    let report = PermissionRequestReport {
        adapter: macos_adapter(),
        requested: vec![PermissionRequestOutcome {
            permission: PermissionKind::Accessibility,
            actions: vec![
                "surfaced the Accessibility prompt via AXIsProcessTrustedWithOptions".to_owned(),
                "opened System Settings pane: x-apple.systempreferences:...".to_owned(),
            ],
            state_after: PermissionState::Denied,
            note: Some("attribution caveat, see bd-5110d9".to_owned()),
        }],
        permissions: vec![PermissionStatus::denied(
            PermissionKind::Accessibility,
            "accessibility missing",
            "open settings",
        )],
    };
    let rendered = render_permission_request_human(&report);
    assert!(rendered.contains("permission request flow"));
    assert!(rendered.contains("Accessibility (input control): denied (after request)"));
    assert!(rendered.contains("surfaced the Accessibility prompt"));
    assert!(rendered.contains("note: attribution caveat, see bd-5110d9"));
    assert!(rendered.contains("current status:"));
}

#[test]
fn unsupported_permission_request_reports_no_prompt_fired() {
    let outcomes = unsupported_permission_request(PlatformKind::Linux);
    assert_eq!(outcomes.len(), 1);
    assert_eq!(outcomes[0].state_after, PermissionState::Unknown);
    assert!(outcomes[0].actions.iter().any(|action| action.contains("only implemented on macOS")));
}

#[test]
fn mcp_dispatch_rejects_inherited_window_flag() {
    assert_mcp_rejects(&mcp_cli(Some("hypr:0xabc"), None, false), "--window");
}

#[test]
fn mcp_dispatch_rejects_inherited_display_flag() {
    assert_mcp_rejects(&mcp_cli(None, Some("DP-1"), false), "--display");
}

#[test]
fn mcp_dispatch_rejects_inherited_json_flag() {
    assert_mcp_rejects(&mcp_cli(None, None, true), "--json");
}

#[test]
fn mcp_dispatch_rejects_multiple_inherited_flags_in_one_message() {
    let cli = mcp_cli(Some("win"), Some("DP-1"), true);
    let error = reject_inherited_target_flags_for_mcp(&cli).expect_err("combined inherited flags");
    let message = error.message();
    for flag in ["--window", "--display", "--json"] {
        assert!(message.contains(flag), "expected error to mention {flag}: {message}");
    }
    assert!(reject_inherited_target_flags_for_mcp(&mcp_cli(None, None, false)).is_ok());
}

#[test]
fn capture_input_uses_config_defaults() {
    let input = build_capture_input(
        &window_scope("window-1"),
        &CaptureCommand {
            max_width: None,
            max_height: None,
            format: None,
            compression: None,
            output: None,
            timeout_ms: None,
        },
        &TendrilConfig::default(),
    )
    .expect("capture input should build");

    assert_eq!(input.format, ImageFormat::Png);
    assert_eq!(input.compression, 85);
}

#[test]
fn run_request_preserves_shared_target_scope_model() {
    let request = RunRequest {
        target: window_scope("window-1"),
        options: RunCommand { input_definition: Some("send(\"hello\")".to_string()), ..RunCommand::default() },
    };

    assert_eq!(request.target.window.as_deref(), Some("window-1"));
    assert_eq!(request.options.input_definition.as_deref(), Some("send(\"hello\")"));
    assert!(request.options.restore_focus);
    assert!(!request.options.no_restore_focus);
}

#[test]
fn run_input_disables_focus_restore_when_requested() {
    let input = build_run_input(
        &window_scope("window-1"),
        &RunCommand {
            input_definition: Some("send(\"hello\")".to_owned()),
            no_restore_focus: true,
            ..RunCommand::default()
        },
    )
    .expect("run input should build");

    assert!(!input.restore_focus);
}

#[test]
fn clipboard_input_parses_selection_and_defaults() {
    let get = build_clipboard_get_input(&ClipboardGetCommand { selection: Some("primary".to_owned()), timeout_ms: None })
        .expect("clipboard get input should build");
    assert_eq!(get.selection, ClipboardSelection::Primary);
    assert_eq!(get.timeout_ms, DEFAULT_CLIPBOARD_TIMEOUT_MS);

    let set = build_clipboard_set_input(&ClipboardSetCommand {
        selection: None,
        text: "hello clipboard".to_owned(),
        serve_ms: None,
    })
    .expect("clipboard set input should build");
    assert_eq!(set.selection, ClipboardSelection::Clipboard);
    assert_eq!(set.serve_ms, DEFAULT_CLIPBOARD_SERVE_MS);
}

#[test]
fn listen_input_parses_requested_source_duration_and_format() {
    let input = build_listen_input(&ListenCommand {
        source: Some("loopback".to_string()),
        duration_ms: Some(1_500),
        format: Some("flac".to_string()),
        output: None,
    })
    .expect("listen input should build");

    assert_eq!(input.source.kind, AudioSourceKind::System);
    assert_eq!(input.duration_ms, 1_500);
    assert_eq!(input.format, AudioFormat::Flac);
}

#[test]
fn listen_probe_reports_probe_only_gap_on_unwired_platform() {
    let input = build_listen_input(&ListenCommand {
        source: Some("system".to_string()),
        duration_ms: Some(2_000),
        format: Some("wav".to_string()),
        output: None,
    })
    .expect("listen input should build");
    let capability = AudioCapabilityReport {
        backend: Some(AudioBackend::Wasapi),
        supported_sample_rates_hz: vec![48_000],
        supported_channel_counts: vec![2],
        permissions: Vec::new(),
    };
    let capture = execute_listen_capture(&input, PlatformKind::Windows11, Some(AudioBackend::Wasapi), Vec::new());
    let response = build_listen_response(input, windows_adapter(), capability, capture);

    assert_eq!(response.capability.backend, Some(AudioBackend::Wasapi));
    assert_eq!(response.execution.status, "probe_only");
    assert!(!response.execution.artifact_available);
    assert!(response.execution.artifact.is_none());
    assert!(
        response.execution.notes.iter().any(|note| note.contains("not yet wired")),
        "expected an unsupported-platform note, got {:?}",
        response.execution.notes
    );
}

#[test]
fn capture_request_flattens_capture_command_fields() {
    let request = CaptureRequest {
        target: TargetScope { window: None, display: Some("1".to_string()), camera: None, x11_display: None },
        options: CaptureCommand {
            max_width: Some(800),
            max_height: Some(600),
            format: Some("png".to_string()),
            compression: Some(90),
            output: None,
            timeout_ms: None,
        },
    };

    assert_eq!(request.target.display.as_deref(), Some("1"));
    assert_eq!(request.options.max_width, Some(800));
    assert_eq!(request.options.compression, Some(90));
}

#[test]
fn alias_output_is_shell_usable_and_transparent() {
    let input = build_alias_input(
        &window_scope("window-1"),
        &AliasCommand { shell: Some("bash".to_string()), name: Some("desk".to_string()) },
    )
    .expect("alias input should build");

    let output = execute_alias(&input);

    assert_eq!(output.shell, ShellKind::Bash);
    assert_eq!(output.name, "desk");
    assert_eq!(output.argv, vec!["tendril", "--window", "window-1"]);
    assert_eq!(output.command, "tendril --window window-1");
    assert!(output.shell_code.contains("desk()"));
    assert!(output.shell_code.contains("command tendril --window window-1 \"$@\""));
}

#[test]
fn cli_listen_json_error_is_structured_for_unimplemented_device_selection() {
    let input = build_listen_input(&ListenCommand {
        source: Some("device:mic-2".to_string()),
        duration_ms: Some(1_000),
        format: Some("wav".to_string()),
        output: None,
    })
    .expect("device selection parses");
    assert_eq!(input.source.id.as_deref(), Some("mic-2"));
    let error = check_listen_source(&input).expect_err("device-specific selection should remain a documented gap");
    assert_eq!(error.category(), ErrorCategory::UnsupportedCapability);
    assert_eq!(error.code(), "audio_device_selection_not_implemented");
}

#[test]
fn capture_input_rejects_conflicting_target_flags() {
    let error = build_capture_input(
        &TargetScope {
            window: Some("window-1".to_owned()),
            display: Some("1".to_owned()),
            camera: None,
            x11_display: None,
        },
        &CaptureCommand::default(),
        &TendrilConfig::default(),
    )
    .expect_err("capture target selection should reject conflicting flags");

    assert_eq!(error.code(), "invalid_capture_input");
    assert!(matches!(
        error.detail("field"),
        Some(tendril::error::DetailValue::Text(field)) if field == "target"
    ));
}

#[test]
fn environment_flags_parse_like_the_cli() {
    assert!(parse_bool_env("TENDRIL_NO_LOCK", "Yes").expect("yes"));
    assert!(!parse_bool_env("TENDRIL_NO_LOCK", "off").expect("off"));
    let bad = parse_bool_env("TENDRIL_NO_LOCK", "maybe").expect_err("not a boolean");
    assert_eq!(bad.code(), "invalid_run_input");
    assert_eq!(
        bad.message(),
        "environment variable TENDRIL_NO_LOCK must be a boolean (true/false or 1/0)"
    );
    assert_eq!(parse_u64_env("TENDRIL_LOCK_TIMEOUT_MS", "+25").expect("plus sign"), 25);
    assert_eq!(
        parse_u64_env("TENDRIL_LOCK_TIMEOUT_MS", "").expect_err("empty").message(),
        "environment variable TENDRIL_LOCK_TIMEOUT_MS must be an unsigned integer: cannot parse integer from empty string"
    );
    assert_eq!(
        parse_u64_env("X", "99999999999999999999").expect_err("too big").message(),
        "environment variable X must be an unsigned integer: number too large to fit in target type"
    );
    assert_eq!(
        parse_u64_env("X", "1a").expect_err("digit").message(),
        "environment variable X must be an unsigned integer: invalid digit found in string"
    );
}

#[test]
fn lock_request_layers_flag_environment_and_configuration() {
    let input = build_run_input(
        &window_scope("w-1"),
        &RunCommand { input_definition: Some("hello".to_owned()), ..RunCommand::default() },
    )
    .expect("run input");
    let config = TendrilConfig::default();
    let env = LockEnvironment {
        no_lock: None,
        lock_path: Some("/env/lock".to_owned()),
        timeout_ms: Some("1234".to_owned()),
        stale_ms: None,
    };
    let command = RunCommand { lock_stale_ms: Some(77), ..RunCommand::default() };
    let request =
        build_execution_lock_request(&command, &input, &config, &env, "/default".to_owned()).expect("lock request");
    assert!(request.enabled);
    assert_eq!(request.lock_path, "/env/lock");
    assert_eq!(request.timeout_ms, 1234);
    assert_eq!(request.stale_ms, 77);
    assert_eq!(request.command, "run");
    assert_eq!(request.target_kind.as_deref(), Some("window"));
    assert_eq!(request.target_id.as_deref(), Some("w-1"));
    assert_eq!(request.reason, None);

    let off = LockEnvironment { no_lock: Some("1".to_owned()), lock_path: None, timeout_ms: None, stale_ms: None };
    let disabled =
        build_execution_lock_request(&RunCommand::default(), &input, &config, &off, "/default".to_owned()).expect("off");
    assert!(!disabled.enabled);
    assert_eq!(disabled.reason.as_deref(), Some("TENDRIL_NO_LOCK"));
    assert_eq!(disabled.lock_path, "/default");

    let flag = RunCommand { no_lock: true, ..RunCommand::default() };
    let by_flag = build_execution_lock_request(&flag, &input, &config, &off, "/d".to_owned()).expect("flag");
    assert_eq!(by_flag.reason.as_deref(), Some("--no-lock"));

    let bad = LockEnvironment { no_lock: None, lock_path: None, timeout_ms: Some("soon".to_owned()), stale_ms: None };
    assert!(build_execution_lock_request(&RunCommand::default(), &input, &config, &bad, "/d".to_owned()).is_err());
}
