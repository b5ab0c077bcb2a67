use tendril::error::{DetailValue, TendrilError};
use tendril::input::{
    looks_like_navigation_text, parse_dsl_sequence, parse_input_definition, reject_unsafe_browser_navigation_chord,
    relative_point_to_absolute, remap_output_point_to_source,
};
use tendril::model::{Bounds, CoordinateTransform, InputAction, ModifierKey, MouseButton, RunInputPayload, ScaleFactor};
use tendril::platform::{AdapterInfo, AudioBackend, CaptureTargetKind, DesktopSession, PlatformKind, TargetDescriptor};

fn x11_adapter_info() -> AdapterInfo {
    AdapterInfo {
        platform: PlatformKind::Linux,
        session: DesktopSession::X11,
        audio_backend: Some(AudioBackend::PipeWire),
        stateless: true,
    }
}

fn ctrl_l_send_return_actions(text: &str) -> Vec<InputAction> {
    vec![
        InputAction::Hold { modifier: ModifierKey::Ctrl },
        InputAction::KeyTap { key: "l".to_owned() },
        InputAction::Release { modifier: ModifierKey::Ctrl },
        InputAction::Send { text: text.to_owned() },
        InputAction::KeyTap { key: "return".to_owned() },
    ]
}

fn browser_target(id: &str, app_name: &str, title: Option<&str>) -> TargetDescriptor {
    TargetDescriptor {
        id: id.to_owned(),
        title: title.map(str::to_owned),
        kind: CaptureTargetKind::Window,
        name: app_name.to_owned(),
        bounds: Bounds { x: 0, y: 0, width: 1920, height: 1080 },
        scale_factor: ScaleFactor { numerator: 1, denominator: 1 },
        capture_supported: true,
        input_supported: true,
        app_name: Some(app_name.to_owned()),
        process_id: Some(4242),
        diagnostics: Vec::new(),
    }
}

fn text_detail(error: &TendrilError, key: &str) -> String {
    match error.detail(key) {
        Some(DetailValue::Text(text)) => text.clone(),
        other => panic!("expected text detail `{key}`, got {other:?}"),
    }
}

fn number_detail(error: &TendrilError, key: &str) -> u64 {
    match error.detail(key) {
        Some(DetailValue::Number(n)) => *n,
        other => panic!("expected number detail `{key}`, got {other:?}"),
    }
}

#[test]
fn x11_browser_ctrl_l_url_navigation_is_rejected_with_remediation() {
    let actions = parse_dsl_sequence(
        r#"hold(ctrl),l,release(ctrl),send("file:///tmp/mouse-buttons-task.html"),Return,wait(1000ms),lclick(70,150)"#,
    )
    .expect("dsl should parse");
    let error = reject_unsafe_browser_navigation_chord(
        &x11_adapter_info(),
        &browser_target("0x600016", "firefox", Some("Tendril Smoke Browser — Mozilla Firefox")),
        &actions,
    )
    .expect_err("unsafe browser navigation chord should be rejected");

    assert_eq!(error.code(), "invalid_run_input");
    assert_eq!(text_detail(&error, "stage"), "browser_navigation_preflight");
    assert_eq!(text_detail(&error, "pattern"), "x11_browser_ctrl_l_url_send");
    assert_eq!(number_detail(&error, "action_index"), 3);
    let remediation = text_detail(&error, "remediation");
    assert!(
        remediation.contains("click the visible address bar") && remediation.contains("recapture and verify"),
        "unexpected remediation: {remediation}"
    );

    let ctrl_a_after_ctrl_l = parse_dsl_sequence(
        r#"hold(ctrl),l,release(ctrl),hold(ctrl),a,release(ctrl),send("https://example.com"),Return"#,
    )
    .expect("dsl should parse");
    reject_unsafe_browser_navigation_chord(
        &x11_adapter_info(),
        &browser_target("0x600016", "firefox", Some("Mozilla Firefox")),
        &ctrl_a_after_ctrl_l,
    )
    .expect_err("Ctrl+A after an unsafe Ctrl+L should still be rejected before URL text");
}

#[test]
fn x11_browser_ctrl_l_absolute_filesystem_paths_are_rejected() {
    let browser = browser_target("0x600016", "firefox", Some("Mozilla Firefox"));

    for path in [
        "/home/harry/upload-proof.txt",
        " /tmp/folder with spaces/upload-proof.txt ",
        "/Users/alice/upload-proof.txt",
    ] {
        let actions =
            parse_dsl_sequence(&format!(r#"hold(ctrl),l,release(ctrl),send("{path}"),Return"#)).expect("dsl should parse");
        let error = reject_unsafe_browser_navigation_chord(&x11_adapter_info(), &browser, &actions)
            .expect_err("absolute filesystem path navigation should be rejected");

        assert_eq!(error.code(), "invalid_run_input");
        assert_eq!(number_detail(&error, "action_index"), 3);
        assert_eq!(text_detail(&error, "url_preview"), path);
    }

    for path in [
        r"C:\Users\agent\Desktop\upload-proof.txt",
        "C:/Users/agent/Desktop/upload-proof.txt",
        r"\\server\share\upload-proof.txt",
    ] {
        let actions = ctrl_l_send_return_actions(path);
        assert!(
            reject_unsafe_browser_navigation_chord(&x11_adapter_info(), &browser, &actions).is_err(),
            "absolute filesystem path `{path}` should be rejected"
        );
    }
}

#[test]
fn navigation_text_classifier_preserves_search_text() {
    assert!(looks_like_navigation_text("/home/harry/upload-proof.txt"));
    assert!(looks_like_navigation_text(" /Users/alice/upload-proof.txt "));
    assert!(looks_like_navigation_text("file:///tmp/upload-proof.txt"));
    assert!(looks_like_navigation_text(r"C:\Users\agent\Desktop\upload-proof.txt"));
    assert!(looks_like_navigation_text("C:/Users/agent/Desktop/upload-proof.txt"));
    assert!(looks_like_navigation_text(r"\\server\share\upload-proof.txt"));
    assert!(!looks_like_navigation_text("literal search text"));
    assert!(!looks_like_navigation_text("how to use /tmp on linux"));
    assert!(!looks_like_navigation_text("relative/path/upload-proof.txt"));
    assert!(!looks_like_navigation_text("~/upload-proof.txt"));
    assert!(!looks_like_navigation_text("C: drive letter search"));
}

#[test]
fn x11_browser_ctrl_l_non_url_and_click_address_bar_patterns_are_allowed() {
    let browser = browser_target("0x600016", "firefox", Some("Mozilla Firefox"));

    for text in [
        "literal search text",
        "search for /home/harry/upload-proof.txt",
        "relative/path/upload-proof.txt",
        "~/upload-proof.txt",
        "C: drive letter search",
    ] {
        let actions = ctrl_l_send_return_actions(text);
        reject_unsafe_browser_navigation_chord(&x11_adapter_info(), &browser, &actions)
            .unwrap_or_else(|_| panic!("non-navigation text `{text}` should remain allowed"));
    }

    let click_address_bar = parse_dsl_sequence(
        r#"lclick(220,60),hold(ctrl),a,release(ctrl),send("file:///tmp/mouse-buttons-task.html"),Return"#,
    )
    .expect("dsl should parse");
    reject_unsafe_browser_navigation_chord(&x11_adapter_info(), &browser, &click_address_bar)
        .expect("capture-click-address-bar navigation pattern should remain valid");
}

#[test]
fn ctrl_l_url_sequence_remains_valid_for_non_browser_or_non_x11_targets() {
    let actions = parse_dsl_sequence(r#"hold(ctrl),l,release(ctrl),send("https://example.com"),Return"#)
        .expect("dsl should parse");
    reject_unsafe_browser_navigation_chord(
        &x11_adapter_info(),
        &browser_target("window-1", "FixtureApp", Some("Fixture Window")),
        &actions,
    )
    .expect("non-browser targets should not trigger the browser navigation guard");

    let wayland_info = AdapterInfo {
        platform: PlatformKind::Linux,
        session: DesktopSession::Wayland,
        audio_backend: Some(AudioBackend::PipeWire),
        stateless: true,
    };
    reject_unsafe_browser_navigation_chord(
        &wayland_info,
        &browser_target("0x600016", "firefox", Some("Mozilla Firefox")),
        &actions,
    )
    .expect("the guard is scoped to the known Linux/X11 failure mode");
}

#[test]
fn parser_accepts_initial_action_set() {
    let actions = parse_dsl_sequence(
        r#"hold(ctrl),c,release(ctrl),wait(1.5s),send("abc"),lclick(10,20),rclick(30,40),mclick(50,60),drag(1,2,3,4),scroll(100,200,7),scroll(100,200,-3)"#,
    )
    .expect("dsl should parse");

    assert_eq!(actions.len(), 11);
    assert_eq!(actions[0], InputAction::Hold { modifier: ModifierKey::Ctrl });
    assert_eq!(actions[1], InputAction::KeyTap { key: "c".to_owned() });
    assert_eq!(actions[2], InputAction::Release { modifier: ModifierKey::Ctrl });
    assert_eq!(actions[3], InputAction::Wait { duration_ms: 1_500 });
    assert_eq!(actions[4], InputAction::Send { text: "abc".to_owned() });
    assert_eq!(actions[5], InputAction::Click { button: MouseButton::Left, x: 10, y: 20 });
    assert_eq!(actions[6], InputAction::Click { button: MouseButton::Right, x: 30, y: 40 });
    assert_eq!(actions[7], InputAction::Click { button: MouseButton::Middle, x: 50, y: 60 });
    assert_eq!(actions[8], InputAction::Drag { x0: 1, y0: 2, x1: 3, y1: 4 });
    assert_eq!(actions[9], InputAction::Scroll { x: 100, y: 200, dy: 7 });
    assert_eq!(actions[10], InputAction::Scroll { x: 100, y: 200, dy: -3 });
}

#[test]
fn parser_accepts_shift_insert_terminal_paste_chord() {
    let actions =
        parse_dsl_sequence("hold(shift),Insert,release(shift)").expect("Shift+Insert terminal paste chord should parse");

    assert_eq!(
        actions,
        vec![
            InputAction::Hold { modifier: ModifierKey::Shift },
            InputAction::KeyTap { key: "insert".to_owned() },
            InputAction::Release { modifier: ModifierKey::Shift },
        ]
    );
}

#[test]
fn parser_reports_precise_invalid_syntax_details() {
    let error = parse_dsl_sequence(r"hold(ctrl),send(abc),wait(1s)").expect_err("invalid send syntax should fail");

    assert_eq!(error.code(), "invalid_run_input");
    assert_eq!(text_detail(&error, "stage"), "parse");
    assert_eq!(number_detail(&error, "action_index"), 1);
    assert_eq!(text_detail(&error, "action"), "send(abc)");
}

#[test]
fn parser_rejects_branchy_invalid_sequences_with_precise_stages() {
    for (sequence, stage, detail_key) in [
        ("hold(ctrl),,tab", "parse", Some("action_index")),
        ("hold(ctrl))", "parse", Some("offset")),
        (r#"send("unterminated)"#, "parse", None),
        ("hold(ctrl", "parse", None),
        (r#"send("hi") trailing"#, "parse", Some("action")),
        ("drag(1,2,3)", "parse", Some("action")),
        ("scroll(10,20)", "parse", Some("action")),
        ("scroll(10,20,0)", "validate", Some("action")),
        ("scroll(10,20,121)", "validate", Some("action")),
        ("scroll(10,20,down)", "parse", Some("action")),
        ("wait(0)", "validate", Some("action")),
        (r#"send("")"#, "validate", Some("action")),
        (r#"send("bad\q")"#, "parse", Some("action")),
    ] {
        let error = parse_dsl_sequence(sequence).expect_err("sequence should be rejected");
        assert_eq!(text_detail(&error, "stage"), stage, "unexpected stage for `{sequence}`");
        if let Some(detail_key) = detail_key {
            assert!(error.detail(detail_key).is_some(), "expected `{detail_key}` in details for `{sequence}`");
        }
    }
}

#[test]
fn plain_text_with_commas_remains_text_when_dsl_parse_fails() {
    let payload = parse_input_definition("hello, world").expect("text payload should parse");
    assert_eq!(payload, RunInputPayload::Text { text: "hello, world".to_owned() });
}

#[test]
fn ambiguous_single_bare_key_tokens_are_rejected_with_hint() {
    for token in ["Return", "tab", "Escape", "F12", "Up", "Insert"] {
        let error = parse_input_definition(token).expect_err("bare key token should fail");
        assert_eq!(error.code(), "invalid_run_input");
        assert_eq!(text_detail(&error, "stage"), "parse");
        assert_eq!(text_detail(&error, "ambiguity"), "bare_key_token");
        assert_eq!(text_detail(&error, "ambiguous_token"), token);
        let hint = text_detail(&error, "hint");
        assert!(hint.contains("send(") && hint.contains("DSL sequence"), "unexpected hint: {hint}");
    }
}

#[test]
fn reserved_verb_with_quoted_argument_without_parens_is_rejected_with_hint() {
    let error = parse_input_definition(r#"type "hi""#).expect_err("reserved verb missing parentheses should fail");
    assert_eq!(error.code(), "invalid_run_input");
    assert_eq!(text_detail(&error, "stage"), "parse");
    assert_eq!(text_detail(&error, "ambiguity"), "reserved_verb_without_parens");
    assert_eq!(text_detail(&error, "verb"), "send");
    let hint = text_detail(&error, "hint");
    assert!(hint.contains(r#"send("hi")"#), "hint should suggest canonical send syntax: {hint}");
}

#[test]
fn genuine_plain_text_payloads_still_parse_as_text() {
    for text in ["hello world", "hello", "Return key", "type hi"] {
        let payload = parse_input_definition(text).expect("text payload should parse");
        assert_eq!(payload, RunInputPayload::Text { text: text.to_owned() });
    }
}

#[test]
fn bare_parenthesized_text_promotes_to_dsl_error() {
    let error = parse_input_definition("send(hello)").expect_err("invalid dsl should fail");
    assert_eq!(error.code(), "invalid_run_input");
    assert_eq!(text_detail(&error, "stage"), "parse");
}

#[test]
fn top_level_semicolon_emits_clear_diagnostic() {
    let error = parse_input_definition("hold(ctrl); tab").expect_err("top-level `;` should be rejected");
    assert_eq!(error.code(), "invalid_run_input");
    assert_eq!(text_detail(&error, "stage"), "parse");
    assert_eq!(number_detail(&error, "offset"), 10);
    let msg = error.message();
    assert!(msg.contains("the DSL separator is `,`"), "unexpected message: {msg}");
}

#[test]
fn semicolon_inside_string_or_parens_is_not_diagnosed() {
    let payload = parse_input_definition(r#"send("a; b")"#).expect("quoted `;` should parse as DSL text payload");
    assert!(matches!(payload, RunInputPayload::Actions { .. }));
}

#[test]
fn top_level_commas_promote_valid_sequences_to_actions() {
    let payload = parse_input_definition("ctrl+c,tab").expect("dsl payload should parse");
    assert!(matches!(payload, RunInputPayload::Actions { .. }));
}

#[test]
fn quoted_commas_remain_text_payloads() {
    let payload = parse_input_definition(r#"send("hello, world")"#).expect("quoted dsl payload should parse");
    match payload {
        RunInputPayload::Actions { actions } => assert_eq!(actions.len(), 1),
        other => panic!("expected action payload, got {other:?}"),
    }
}

#[test]
fn capture_mapping_metadata_remaps_output_space_to_source_space() {
    let transform = CoordinateTransform { x_numerator: 400, x_denominator: 100, y_numerator: 200, y_denominator: 50 };
    assert_eq!(remap_output_point_to_source(&transform, 25, 10), (100, 40));
}

#[test]
fn remap_rounds_fractional_scale_factors_to_nearest_source_coordinate() {
    let transform = CoordinateTransform { x_numerator: 3, x_denominator: 2, y_numerator: 5, y_denominator: 4 };
    assert_eq!(remap_output_point_to_source(&transform, 7, 7), (11, 9));
}

#[test]
fn relative_coordinates_map_to_absolute_source_space() {
    let bounds = Bounds { x: 50, y: 80, width: 300, height: 200 };
    assert_eq!(relative_point_to_absolute(&bounds, 10, 20), (60, 100));
}

#[test]
fn bare_key_sequences_round_trip_into_ordered_actions() {
    for keys in [vec!["Tab", "Return"], vec!["a", "B", "c_d", "ctrl+c", "F5"], vec!["x-1", "Y+2", "zz"]] {
        let sequence = keys.join(",");
        let payload = parse_input_definition(&sequence).expect("generated sequence should parse");
        let expected: Vec<InputAction> =
            keys.iter().map(|key| InputAction::KeyTap { key: key.to_ascii_lowercase() }).collect();
        assert_eq!(payload, RunInputPayload::Actions { actions: expected });
    }
}

#[test]
fn coordinate_remap_is_monotonic_with_positive_scale_factors() {
    for (x0, dx, num, den) in [(0, 1, 1, 1), (17, 5, 3, 7), (4999, 127, 31, 2), (100, 0, 5, 31)] {
        let transform = CoordinateTransform { x_numerator: num, x_denominator: den, y_numerator: den, y_denominator: num };
        let (a, b) = remap_output_point_to_source(&transform, x0, x0);
        let (c, d) = remap_output_point_to_source(&transform, x0 + dx, x0 + dx);
        assert!(a <= c && b <= d);
    }
}
