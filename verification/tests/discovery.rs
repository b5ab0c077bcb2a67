use tendril::discovery::{
    command_output_means_backend_unavailable, headless_wayland_capture_diagnostic, is_filtered_system_window,
    is_headless_wayland_monitor, is_macos_permission_error, macos_discovery_script, parse_simple_geometry,
    parse_wlr_randr_mode, wayland_discovery_backend_error, wayland_discovery_backend_tools_on_path,
    windows_targets_from, HyprlandMonitor,
};
use tendril::envelope::ErrorCategory;
use tendril::error::DetailValue;
use tendril::model::{Bounds, ScaleFactor};
use tendril::platform::{Capability, CaptureTargetKind};
use tendril::win32::{Bounds as WinBounds, DisplayInfo, WindowInfo};

#[test]
fn filters_xdg_desktop_portal_windows_by_app_id() {
    assert!(is_filtered_system_window(Some("xdg-desktop-portal-gtk"), Some("Open File")));
    assert!(is_filtered_system_window(Some("xdg-desktop-portal-hyprland"), None));
    assert!(is_filtered_system_window(Some("org.freedesktop.impl.portal.desktop.gtk"), None));
    assert!(is_filtered_system_window(Some("XDG-Desktop-Portal-GTK"), None));
}

#[test]
fn keeps_regular_application_windows() {
    assert!(!is_filtered_system_window(Some("firefox"), Some("Mozilla Firefox")));
    assert!(!is_filtered_system_window(Some("Alacritty"), None));
    assert!(!is_filtered_system_window(Some("editor"), Some("xdg-desktop-portal docs")));
}

#[test]
fn falls_back_to_title_when_app_id_missing() {
    assert!(is_filtered_system_window(None, Some("xdg-desktop-portal-gtk")));
    assert!(!is_filtered_system_window(None, Some("Untitled document")));
}

#[test]
fn parses_negative_geometry_offsets() {
    assert_eq!(parse_simple_geometry("800x600-10+20"), Some(Bounds { x: -10, y: 20, width: 800, height: 600 }));
}

#[test]
fn parses_wlr_randr_current_mode_line() {
    assert_eq!(
        parse_wlr_randr_mode("1920x1080 px, 60.000 Hz, position 0,0, transform normal, scale 1.000000"),
        None
    );
    assert_eq!(parse_wlr_randr_mode("1920x1080+0+0"), Some(Bounds { x: 0, y: 0, width: 1920, height: 1080 }));
}

fn mock_displays() -> Result<Vec<DisplayInfo>, String> {
    Ok(vec![DisplayInfo {
        id: "1".to_owned(),
        name: r"\\.\DISPLAY1".to_owned(),
        bounds: WinBounds { x: 0, y: 0, width: 1920, height: 1080 },
    }])
}

fn mock_windows() -> Result<Vec<WindowInfo>, String> {
    Ok(vec![WindowInfo {
        id: "0x10".to_owned(),
        title: "Inbox".to_owned(),
        app_name: Some("OUTLOOK".to_owned()),
        process_id: 4242,
        bounds: WinBounds { x: 120, y: 80, width: 1440, height: 900 },
    }])
}

#[test]
fn windows_native_discovery_backend_maps_display_and_window_targets() {
    let targets = windows_targets_from(mock_displays(), mock_windows()).expect("mocked windows discovery should succeed");
    assert_eq!(targets.len(), 2);
    assert_eq!(targets[0].kind, CaptureTargetKind::Display);
    assert_eq!(targets[0].id, "1");
    assert_eq!(targets[0].name, r"\\.\DISPLAY1");
    assert_eq!(targets[1].kind, CaptureTargetKind::Window);
    assert_eq!(targets[1].id, "0x10");
    assert_eq!(targets[1].title.as_deref(), Some("Inbox"));
    assert_eq!(targets[1].name, "OUTLOOK");
    assert_eq!(targets[1].process_id, Some(4242));
}

#[test]
fn windows_native_discovery_errors_are_structured() {
    let error = windows_targets_from(Err("EnumDisplayMonitors failed".to_owned()), Ok(Vec::new()))
        .expect_err("mocked discovery failure should surface as an adapter error");
    assert_eq!(error.category, ErrorCategory::PlatformAdapterFailure);
    assert!(error.message.contains("EnumDisplayMonitors failed"));
}

#[test]
fn macos_permission_classifier_catches_osascript_permission_failures() {
    assert!(is_macos_permission_error(
        "osascript exited with status 1: System Events got an error: osascript is not allowed assistive access. (-1719)"
    ));
    assert!(is_macos_permission_error(
        "Platform adapter failure during TargetDiscovery on MacOs: screen recording access denied"
    ));
}

#[test]
fn macos_discovery_script_uses_built_in_jxa_bridge() {
    let script = macos_discovery_script();
    assert!(script.contains("ObjC.import('CoreGraphics')"));
    assert!(script.contains("NSScreen.screens"));
    assert!(script.contains("CGWindowListCopyWindowInfo"));
    assert!(!script.contains("import AppKit\nimport ApplicationServices"));
}

#[test]
fn macos_discovery_script_casts_cfarrayref_before_deep_unwrap() {
    let script = macos_discovery_script();
    assert!(script.contains("ObjC.castRefToObject("));
    assert!(script.contains("ObjC.deepUnwrap(ObjC.castRefToObject("));
    assert!(script.contains("kind: 'window'"));
}

#[test]
fn inactive_wayland_compositor_output_is_treated_as_backend_unavailable() {
    assert!(command_output_means_backend_unavailable("", "hyprland_instance_signature not set! (is hyprland running?)"));
    assert!(command_output_means_backend_unavailable("unable to connect to socket", ""));
    assert!(!command_output_means_backend_unavailable("{not-json}", "syntax error"));
}

#[test]
fn wayland_backend_diagnostic_only_reports_supported_matrix_tools() {
    let detected = wayland_discovery_backend_tools_on_path(true, false, true);
    assert!(detected.iter().all(|tool| matches!(*tool, "hyprctl" | "swaymsg" | "wlr-randr")));
    assert_eq!(detected, vec!["hyprctl", "wlr-randr"]);
}

#[test]
fn wayland_headless_monitor_diagnostic_marks_capture_unavailable() {
    let monitor = HyprlandMonitor {
        name: Some("sunshine-headless".to_owned()),
        description: Some(String::new()),
        make: Some(String::new()),
        model: Some(String::new()),
        x: None,
        y: None,
        width: None,
        height: None,
        physical_width: Some(0),
        physical_height: Some(0),
        scale_factor: ScaleFactor::identity(),
    };
    assert!(is_headless_wayland_monitor(&monitor));
    let diagnostic = headless_wayland_capture_diagnostic("sunshine-headless", &monitor)
        .expect("headless monitor should have a capture diagnostic");
    assert_eq!(diagnostic.capability, Capability::DisplayCapture);
    assert_eq!(diagnostic.code, "wayland_headless_display_capture_unavailable");
    assert!(diagnostic.message.contains("xdg-desktop-portal"));
    assert!(diagnostic.message.contains("grim"));
    assert!(diagnostic
        .suggested_action
        .as_deref()
        .is_some_and(|action| action.contains("X11/Xvfb") && action.contains("refresh-rate")));
}

#[test]
fn wayland_backend_error_describes_supported_matrices_without_grim_requirement() {
    let error = wayland_discovery_backend_error(&Vec::new());
    assert_eq!(error.category, ErrorCategory::UnsupportedCapability);
    assert!(error.message.contains("hyprctl"));
    assert!(error.message.contains("swaymsg"));
    assert!(error.message.contains("wlr-randr"));
    assert!(!error.message.contains("grim"));
    let action = error.details.iter().find(|d| d.key == "suggested_action").map(|d| &d.value);
    assert!(matches!(action, Some(DetailValue::Text(message)) if message.contains("Capture no longer requires `grim`")));
}

#[test]
fn backend_unavailable_classifier_matches_known_markers_only() {
    assert!(command_output_means_backend_unavailable("", "error: is hyprland running?"));
    assert!(command_output_means_backend_unavailable("", "unknown socket"));
    assert!(command_output_means_backend_unavailable("no running instance", ""));
    assert!(command_output_means_backend_unavailable("unable to connect", ""));
    assert!(!command_output_means_backend_unavailable("[{\"id\":1}]", ""));
}
