use tendril::config::{
    detect_paths, CaptureDefaults, ConfigPaths, ExecutionLockDefaults, ImageFormat, LogLevel, TendrilConfig,
};
use tendril::error::{DetailValue, TendrilError};
use tendril::model::{
    AliasInput, AudioFormat, AudioSourceKind, AudioSourceSelector, CaptureInput, InputAction, ListInput, ListenInput,
    RunInput, RunInputPayload, ScaleFactor, ShellKind, TargetSelector, MAX_SCROLL_TICKS,
};

fn text_detail(error: &TendrilError, key: &str) -> Option<String> {
    match error.detail(key) {
        Some(DetailValue::Text(t)) => Some(t.clone()),
        _ => None,
    }
}

#[test]
fn log_level_verbosity_classification() {
    assert!(!LogLevel::Error.is_more_verbose_than_warn());
    assert!(!LogLevel::Warn.is_more_verbose_than_warn());
    assert!(LogLevel::Info.is_more_verbose_than_warn());
    assert!(LogLevel::Debug.is_more_verbose_than_warn());
    assert!(LogLevel::Trace.is_more_verbose_than_warn());
}

#[test]
fn defaults_cover_initial_capture_preferences() {
    let config = TendrilConfig::default();

    assert_eq!(config.capture.format, ImageFormat::Png);
    assert_eq!(config.capture.compression, 85);
    assert_eq!(config.logging.level, LogLevel::Info);
    assert_eq!(config.execution_lock, ExecutionLockDefaults::default());
}

#[test]
fn config_dir_env_overrides_default_location() {
    let paths = detect_paths(Some("/tmp/tendril-config".to_owned()), None, None);

    assert_eq!(paths.dir, "/tmp/tendril-config");
    assert_eq!(paths.file, "/tmp/tendril-config/config.yaml");
}

#[test]
fn home_dir_fallback_matches_spec_location() {
    let paths = detect_paths(None, None, Some("/home/alice".to_owned()));

    assert_eq!(
        paths,
        ConfigPaths {
            dir: "/home/alice/.config/tendril".to_owned(),
            file: "/home/alice/.config/tendril/config.yaml".to_owned(),
        }
    );
}

#[test]
fn xdg_config_home_is_used_before_home() {
    let paths = detect_paths(None, Some("/xdg/".to_owned()), Some("/home/alice".to_owned()));
    assert_eq!(paths.dir, "/xdg/tendril");
    assert_eq!(detect_paths(None, None, None).file, ".config/tendril/config.yaml");
}

#[test]
fn invalid_execution_lock_values_are_rejected() {
    let mut config = TendrilConfig::default();
    config.execution_lock.timeout_ms = 0;
    let error = config.validate_with_path("config.yaml").expect_err("invalid config should fail");
    assert_eq!(error.code(), "invalid_config");
    assert_eq!(text_detail(&error, "field").as_deref(), Some("execution_lock.timeout_ms"));
}

#[test]
fn invalid_yaml_values_are_rejected() {
    let config = TendrilConfig {
        capture: CaptureDefaults { compression: 255, ..CaptureDefaults::default() },
        ..TendrilConfig::default()
    };
    let error = config.validate_with_path("config.yaml").expect_err("invalid config should fail");
    assert_eq!(error.code(), "invalid_config");
    assert_eq!(text_detail(&error, "field").as_deref(), Some("capture.compression"));
}

#[test]
fn zero_capture_max_width_is_rejected() {
    let capture = CaptureDefaults { max_width: Some(0), ..CaptureDefaults::default() };
    let error = capture.validate("config.yaml").expect_err("zero max_width should be rejected");
    assert_eq!(error.code(), "invalid_config");
    assert_eq!(text_detail(&error, "field").as_deref(), Some("capture.max_width"));
}

#[test]
fn zero_capture_max_height_is_rejected() {
    let capture = CaptureDefaults { max_height: Some(0), ..CaptureDefaults::default() };
    let error = capture.validate("config.yaml").expect_err("zero max_height should be rejected");
    assert_eq!(error.code(), "invalid_config");
    assert_eq!(text_detail(&error, "field").as_deref(), Some("capture.max_height"));
}

#[test]
fn zero_capture_timeout_ms_is_rejected() {
    let capture = CaptureDefaults { timeout_ms: Some(0), ..CaptureDefaults::default() };
    let error = capture.validate("config.yaml").expect_err("zero timeout_ms should be rejected");
    assert_eq!(error.code(), "invalid_config");
    assert_eq!(text_detail(&error, "field").as_deref(), Some("capture.timeout_ms"));
}

#[test]
fn capture_validation_rejects_out_of_range_compression() {
    let input = CaptureInput {
        target: TargetSelector::Window { id: "window-1".into() },
        max_width: Some(1024),
        max_height: None,
        format: ImageFormat::Png,
        compression: 255,
        timeout_ms: None,
    };

    let error = input.validate().expect_err("compression should be validated");

    assert_eq!(error.code(), "invalid_capture_input");
}

#[test]
fn run_validation_rejects_empty_text_payload() {
    let input = RunInput {
        target: TargetSelector::Display { id: "1".into() },
        payload: RunInputPayload::Text { text: String::new() },
        restore_focus: true,
    };

    let error = input.validate().expect_err("text payload should be validated");

    assert_eq!(error.code(), "invalid_run_input");
}

#[test]
fn run_validation_rejects_invalid_typed_scroll_delta() {
    let over_limit = i32::try_from(MAX_SCROLL_TICKS + 1).expect("scroll limit fits i32");
    for dy in [0, over_limit, -over_limit] {
        let input = RunInput {
            target: TargetSelector::Display { id: "1".into() },
            payload: RunInputPayload::Actions { actions: vec![InputAction::Scroll { x: 10, y: 20, dy }] },
            restore_focus: true,
        };

        let error = input.validate().expect_err("scroll dy should be validated");

        assert_eq!(error.code(), "invalid_run_input");
        assert_eq!(error.detail("action_index"), Some(&DetailValue::Number(0)));
    }
}

#[test]
fn listen_validation_requires_device_identifier() {
    let input = ListenInput {
        source: AudioSourceSelector { kind: AudioSourceKind::Device, id: None },
        duration_ms: 1_000,
        format: AudioFormat::Wav,
    };

    let error = input.validate().expect_err("device listen input should require an id");

    assert_eq!(error.code(), "invalid_listen_input");
}

#[test]
fn alias_validation_accepts_agent_friendly_name() {
    let input = AliasInput {
        target: TargetSelector::Window { id: "window-1".into() },
        shell: ShellKind::Bash,
        name: "desk_helper-1".into(),
    };

    input.validate().expect("alias name should be valid");
}

#[test]
fn alias_validation_rejects_shell_reserved_words() {
    for reserved in [
        "if", "then", "else", "elif", "fi", "for", "while", "until", "do", "done", "case", "esac", "function", "select",
        "in", "time", "coproc",
    ] {
        let input = AliasInput {
            target: TargetSelector::Window { id: "window-1".into() },
            shell: ShellKind::Bash,
            name: reserved.into(),
        };

        let error = input.validate().expect_err(&format!("reserved word '{reserved}' should be rejected"));
        assert_eq!(error.code(), "invalid_alias_input");
    }
}

#[test]
fn list_validation_requires_any_requested_class() {
    let input = ListInput { include_windows: false, include_displays: false, include_audio_sources: false };

    let error = input.validate().expect_err("list input should require at least one target class");

    assert_eq!(error.code(), "invalid_list_input");
}

#[test]
fn scale_factor_new_reduces_to_simplest_form_so_displays_match_windows() {
    assert_eq!(ScaleFactor::new(1000, 1000), ScaleFactor::identity());
    assert_eq!(ScaleFactor::new(1, 1), ScaleFactor::identity());

    let two_x = ScaleFactor::new(2000, 1000);
    assert_eq!((two_x.numerator, two_x.denominator), (2, 1));

    let one_point_five = ScaleFactor::new(1500, 1000);
    assert_eq!((one_point_five.numerator, one_point_five.denominator), (3, 2));

    let one_point_two_five = ScaleFactor::new(1250, 1000);
    assert_eq!((one_point_two_five.numerator, one_point_two_five.denominator), (5, 4));
}

#[test]
fn scale_factor_new_clamps_zero_components_to_one() {
    let zero_num = ScaleFactor::new(0, 1000);
    assert!(zero_num.numerator >= 1 && zero_num.denominator >= 1);

    let zero_den = ScaleFactor::new(1000, 0);
    assert!(zero_den.numerator >= 1 && zero_den.denominator >= 1);
}

#[test]
fn scale_factor_new_is_idempotent() {
    let once = ScaleFactor::new(1920, 1280);
    assert_eq!((once.numerator, once.denominator), (3, 2));
    assert_eq!(ScaleFactor::new(once.numerator, once.denominator), once);
}

#[test]
fn scale_factor_deserialization_normalizes_legacy_payloads() {
    // A legacy 1000/1000 payload is canonicalised through `ScaleFactor::new`.
    assert_eq!(ScaleFactor::new(1000, 1000), ScaleFactor::identity());
}

fn capture_with_target(target: TargetSelector) -> CaptureInput {
    CaptureInput { target, max_width: None, max_height: None, format: ImageFormat::Png, compression: 0, timeout_ms: None }
}

#[test]
fn validate_identifier_rejects_empty_window_id_with_id_field() {
    let error = capture_with_target(TargetSelector::Window { id: String::new() })
        .validate()
        .expect_err("empty window id should be rejected");
    assert_eq!(error.code(), "invalid_capture_input");
    assert_eq!(text_detail(&error, "field").as_deref(), Some("id"));
}

#[test]
fn validate_identifier_rejects_whitespace_only_id() {
    let error = capture_with_target(TargetSelector::Window { id: "   ".into() })
        .validate()
        .expect_err("whitespace-only id should be rejected");
    assert_eq!(error.code(), "invalid_capture_input");
    assert_eq!(text_detail(&error, "field").as_deref(), Some("id"));
}

#[test]
fn validate_identifier_rejects_empty_display_id() {
    let error = capture_with_target(TargetSelector::Display { id: String::new() })
        .validate()
        .expect_err("empty display id should be rejected");
    assert_eq!(error.code(), "invalid_capture_input");
    assert_eq!(text_detail(&error, "field").as_deref(), Some("id"));
}

#[test]
fn validate_identifier_accepts_non_empty_id() {
    capture_with_target(TargetSelector::Window { id: "window-1".into() })
        .validate()
        .expect("a non-empty target id should pass the identifier guard");
}
