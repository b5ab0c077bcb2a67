use std::io::Cursor;

use base64::Engine;
use image::{DynamicImage, ImageBuffer, Rgba};
use tendril::capture::{build_capture_output, resized_dimensions};
use tendril::config::ImageFormat;
use tendril::model::{Bounds, CaptureInput, ScaleFactor, TargetSelector};
use tendril::platform::{
    AdapterInfo, AudioBackend, CaptureArtifact, CaptureTargetKind, DesktopSession, PlatformKind, TargetDescriptor,
};

fn windows_adapter() -> AdapterInfo {
    AdapterInfo {
        platform: PlatformKind::Windows11,
        session: DesktopSession::WindowsDesktop,
        audio_backend: Some(AudioBackend::Wasapi),
        stateless: true,
    }
}

fn sample_png(width: u32, height: u32) -> Vec<u8> {
    let image = DynamicImage::ImageRgba8(ImageBuffer::from_pixel(width, height, Rgba([32, 64, 96, 255])));
    let mut bytes = Vec::new();
    image.write_to(&mut Cursor::new(&mut bytes), image::ImageFormat::Png).expect("sample png should encode");
    bytes
}

fn decoded_size(bytes: &[u8]) -> (u32, u32) {
    let image = image::load_from_memory(bytes).expect("output should decode");
    (image.width(), image.height())
}

fn base64_decode(text: &str) -> Vec<u8> {
    base64::engine::general_purpose::STANDARD.decode(text).expect("output should be standard base64")
}

#[test]
fn resized_dimensions_preserve_aspect_ratio() {
    assert_eq!(resized_dimensions(1920, 1080, Some(1000), Some(1000)), (1000, 563));
    assert_eq!(resized_dimensions(1920, 1080, Some(3840), None), (1920, 1080));
    assert_eq!(resized_dimensions(1600, 1200, None, Some(600)), (800, 600));
}

#[test]
fn resized_dimensions_never_exceed_requested_constraints() {
    for (width, height, max_width, max_height) in [
        (1u32, 1u32, Some(1u32), Some(1u32)),
        (4999, 1, Some(1), None),
        (1, 4999, None, Some(3)),
        (1234, 987, Some(4999), Some(17)),
        (640, 480, None, None),
    ] {
        let (w, h) = resized_dimensions(width, height, max_width, max_height);
        assert!(w >= 1 && h >= 1 && w <= width && h <= height);
        if let Some(limit) = max_width {
            assert!(w <= limit.max(1).min(width));
        }
        if let Some(limit) = max_height {
            assert!(h <= limit.max(1).min(height));
        }
    }
}

#[test]
fn capture_output_contains_inverse_mapping_metadata_after_resize() {
    let artifact = CaptureArtifact {
        target_id: "window-1".to_owned(),
        media_type: "image/png".to_owned(),
        image_bytes: sample_png(400, 200),
        captured_at: "2024-05-01T12:00:00Z".to_owned(),
    };
    let target = TargetDescriptor {
        id: "window-1".to_owned(),
        title: Some("Example".to_owned()),
        kind: CaptureTargetKind::Window,
        name: "Example".to_owned(),
        bounds: Bounds { x: 10, y: 20, width: 400, height: 200 },
        scale_factor: ScaleFactor::identity(),
        capture_supported: true,
        input_supported: true,
        app_name: Some("app".to_owned()),
        process_id: Some(1),
        diagnostics: Vec::new(),
    };
    let input = CaptureInput {
        target: TargetSelector::Window { id: "window-1".to_owned() },
        max_width: Some(100),
        max_height: None,
        format: ImageFormat::Png,
        compression: 85,
        timeout_ms: None,
    };

    let output = build_capture_output(&input, &target, artifact, &windows_adapter()).expect("capture output should build");

    assert!(output.resized);
    assert_eq!(output.original_bounds.width, 400);
    assert_eq!(output.output_bounds.width, 100);
    assert_eq!(output.output_bounds.height, 50);
    assert_eq!(output.source_to_output.x_numerator, 100);
    assert_eq!(output.source_to_output.x_denominator, 400);
    assert_eq!(output.output_to_source.x_numerator, 400);
    assert_eq!(output.output_to_source.x_denominator, 100);
    assert_eq!(output.media_type, "image/png");
    assert!(!output.image_base64.is_empty());
    assert!(output.captured_at.contains('T'));
    // The encoded image really has the output size, so the base64 text is the
    // rendering and not the captured bytes handed back.
    assert_eq!(decoded_size(&base64_decode(&output.image_base64)), (100, 50));
}

#[test]
fn capture_output_keeps_identity_mapping_without_resize() {
    let artifact = CaptureArtifact {
        target_id: "1".to_owned(),
        media_type: "image/png".to_owned(),
        image_bytes: sample_png(64, 32),
        captured_at: "2024-05-01T12:00:00Z".to_owned(),
    };
    let target = TargetDescriptor {
        id: "1".to_owned(),
        title: None,
        kind: CaptureTargetKind::Display,
        name: "Display".to_owned(),
        bounds: Bounds { x: 0, y: 0, width: 64, height: 32 },
        scale_factor: ScaleFactor::identity(),
        capture_supported: true,
        input_supported: true,
        app_name: None,
        process_id: None,
        diagnostics: Vec::new(),
    };
    let input = CaptureInput {
        target: TargetSelector::Display { id: "1".to_owned() },
        max_width: None,
        max_height: None,
        format: ImageFormat::Jpeg,
        compression: 80,
        timeout_ms: None,
    };

    let output = build_capture_output(&input, &target, artifact, &windows_adapter()).expect("capture output should build");

    assert!(!output.resized);
    assert_eq!(output.original_bounds.width, output.output_bounds.width);
    assert_eq!(output.output_to_source.x_numerator, 64);
    assert_eq!(output.output_to_source.x_denominator, 64);
    assert_eq!(output.media_type, "image/jpeg");
    let jpeg = base64_decode(&output.image_base64);
    assert_eq!(&jpeg[..2], &[0xFF, 0xD8]);
    assert_eq!(decoded_size(&jpeg), (64, 32));
}

#[test]
fn capture_output_reports_undecodable_bytes() {
    let artifact = CaptureArtifact {
        target_id: "1".to_owned(),
        media_type: "image/png".to_owned(),
        image_bytes: vec![1, 2, 3, 4],
        captured_at: "2024-05-01T12:00:00Z".to_owned(),
    };
    let target = TargetDescriptor {
        id: "1".to_owned(),
        title: None,
        kind: CaptureTargetKind::Display,
        name: "Display".to_owned(),
        bounds: Bounds { x: 0, y: 0, width: 64, height: 32 },
        scale_factor: ScaleFactor::identity(),
        capture_supported: true,
        input_supported: true,
        app_name: None,
        process_id: None,
        diagnostics: Vec::new(),
    };
    let input = CaptureInput {
        target: TargetSelector::Display { id: "1".to_owned() },
        max_width: None,
        max_height: None,
        format: ImageFormat::Png,
        compression: 80,
        timeout_ms: None,
    };
    let error = build_capture_output(&input, &target, artifact, &windows_adapter()).expect_err("garbage should fail");
    assert_eq!(error.code(), "capture_decode_failed");
}
