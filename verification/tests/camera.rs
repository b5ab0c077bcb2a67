use tendril::camera::{
    avfoundation_capture_args, camera_capture_failed, dshow_capture_args, ffmpeg_launch_failed, framerate_retry,
    is_positive_decimal, parse_avfoundation_supported_framerate, parse_dshow_devices, plan_camera_capture,
    png_dimensions, resolve_linux_camera_device, resolve_windows_camera_device, unique_capture_name,
    v4l2_capture_args, CameraDescriptor,
};
use tendril::platform::PlatformKind;

fn argument_value<'a>(args: &'a [String], argument: &str) -> Option<&'a str> {
    args.windows(2).find(|window| window[0] == argument).map(|window| window[1].as_str())
}

#[test]
fn parses_directshow_video_devices_and_alternative_ids() {
    let stderr = r#"
[dshow @ 000001] "Logitech Webcam C930e" (video)
[dshow @ 000001]   Alternative name "@device_pnp_\\?\\usb#vid_046d&pid_0843"
[dshow @ 000001] "Microphone (C930e)" (audio)
[dshow @ 000001]   Alternative name "@device_cm_\\?\\audio#c930e"
[dshow @ 000001] "OBS Virtual Camera" (video)
"#;
    let cameras = parse_dshow_devices(stderr);
    assert_eq!(cameras.len(), 2);
    assert_eq!(cameras[0].name, "Logitech Webcam C930e");
    assert_eq!(cameras[0].id, r"@device_pnp_\\?\\usb#vid_046d&pid_0843");
    assert_eq!(cameras[0].unique_id, Some(cameras[0].id.clone()));
    assert_eq!(cameras[1].id, "OBS Virtual Camera");
}

#[test]
fn avfoundation_capture_args_select_supported_rate_and_single_frame() {
    let args = avfoundation_capture_args("MacBook Pro Camera", "/tmp/frame.png", "30");
    let device_pos = args.iter().position(|arg| arg == "-i").expect("-i present");
    assert_eq!(args[device_pos + 1], "MacBook Pro Camera");
    assert_eq!(argument_value(&args, "-f"), Some("avfoundation"));
    assert_eq!(argument_value(&args, "-framerate"), Some("30"));
    assert_eq!(argument_value(&args, "-frames:v"), Some("1"));
    assert_eq!(args.last().map(String::as_str), Some("/tmp/frame.png"));
    assert!(args.iter().any(|arg| arg == "-y"));
}

#[test]
fn v4l2_capture_args_use_device_node() {
    let args = v4l2_capture_args("/dev/video3", "/tmp/frame.png");
    assert_eq!(argument_value(&args, "-f"), Some("v4l2"));
    assert_eq!(argument_value(&args, "-i"), Some("/dev/video3"));
    assert_eq!(argument_value(&args, "-frames:v"), Some("1"));
}

#[test]
fn dshow_capture_args_prefix_video_selector() {
    let args = dshow_capture_args("Logitech Webcam C930e", "C:/Temp/frame.png");
    assert_eq!(argument_value(&args, "-f"), Some("dshow"));
    assert_eq!(argument_value(&args, "-i"), Some("video=Logitech Webcam C930e"));
    assert_eq!(argument_value(&args, "-frames:v"), Some("1"));
}

#[test]
fn parses_avfoundation_supported_rate() {
    let stderr = "Selected framerate (29.970030) is not supported\n  640x480@[30.000030 30.000030]fps\n  640x480@[24.000038 24.000038]fps";
    assert_eq!(parse_avfoundation_supported_framerate(stderr).as_deref(), Some("30.000030"));
    assert!(parse_avfoundation_supported_framerate("no modes").is_none());
}

#[test]
fn framerate_tokens_must_be_positive_numbers() {
    let ok = |s: &str| is_positive_decimal(&s.chars().collect::<Vec<_>>());
    assert!(ok("30"));
    assert!(ok("+1.5e3"));
    assert!(ok(".5"));
    assert!(!ok("0.000"));
    assert!(!ok("-1"));
    assert!(!ok("1.2.3"));
    assert!(!ok("1e"));
    assert!(!ok(""));
    assert_eq!(parse_avfoundation_supported_framerate("a@[0.0]\nb@[abc]\nc@[12]x").as_deref(), Some("12"));
}

#[test]
fn png_dimensions_reads_ihdr() {
    let mut bytes = Vec::new();
    bytes.extend_from_slice(b"\x89PNG\r\n\x1a\n");
    bytes.extend_from_slice(&13u32.to_be_bytes());
    bytes.extend_from_slice(b"IHDR");
    bytes.extend_from_slice(&320u32.to_be_bytes());
    bytes.extend_from_slice(&240u32.to_be_bytes());
    assert_eq!(png_dimensions(&bytes), Some((320, 240)));
}

#[test]
fn png_dimensions_rejects_non_png() {
    assert!(png_dimensions(b"not a png").is_none());
    assert!(png_dimensions(&[]).is_none());
}

fn camera(id: &str, name: &str) -> CameraDescriptor {
    CameraDescriptor { id: id.to_owned(), name: name.to_owned(), model_id: None, unique_id: None }
}

#[test]
fn linux_camera_selector_resolves_paths_names_and_ambiguity() {
    let cams = vec![camera("/dev/video0", "Webcam"), camera("/dev/video2", "Webcam"), camera("/dev/video4", "Other")];
    assert_eq!(resolve_linux_camera_device("/dev/video9", true, &cams).expect("path"), "/dev/video9");
    assert_eq!(resolve_linux_camera_device("Other", false, &cams).expect("name"), "/dev/video4");
    assert_eq!(resolve_linux_camera_device("Missing", false, &cams).expect_err("none").code(), "target_not_found");
    let ambiguous = resolve_linux_camera_device("Webcam", false, &cams).expect_err("two");
    assert_eq!(ambiguous.code(), "ambiguous_camera_selector");
}

#[test]
fn windows_camera_selector_prefers_ids_then_unique_names() {
    let cams = vec![camera("@pnp1", "Cam"), camera("@pnp2", "Cam"), camera("@pnp3", "Solo")];
    assert_eq!(resolve_windows_camera_device("@pnp2", &cams), "@pnp2");
    assert_eq!(resolve_windows_camera_device("Solo", &cams), "@pnp3");
    assert_eq!(resolve_windows_camera_device("Cam", &cams), "Cam");
}

#[test]
fn capture_plans_follow_the_platform_backend() {
    let (backend, args) = plan_camera_capture(PlatformKind::Linux, "/dev/video0", "/tmp/f.png").expect("linux");
    assert_eq!(backend, "V4L2");
    assert_eq!(args, v4l2_capture_args("/dev/video0", "/tmp/f.png"));
    let err = plan_camera_capture(PlatformKind::Android, "cam", "/tmp/f.png").expect_err("android");
    assert_eq!(err.code(), "camera_capture_unsupported_platform");
    assert_eq!(
        framerate_retry(PlatformKind::MacOs, false, "x@[15.000000 15]fps").as_deref(),
        Some("15.000000")
    );
    assert_eq!(framerate_retry(PlatformKind::MacOs, false, "x@[30 30]fps"), None);
    assert_eq!(framerate_retry(PlatformKind::Linux, false, "x@[15]"), None);
}

#[test]
fn capture_errors_name_backend_device_and_reason() {
    let failed = camera_capture_failed("V4L2", "/dev/video0", "  busy\n");
    assert_eq!(failed.code(), "camera_capture_failed");
    let missing = ffmpeg_launch_failed(PlatformKind::Linux, "V4L2", "/dev/video0", true, "not found");
    assert_eq!(missing.code(), "camera_capture_backend_unavailable");
    assert_eq!(unique_capture_name(42, 7), "tendril-camera-42-7.png");
}
