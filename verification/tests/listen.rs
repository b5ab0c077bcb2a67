use tendril::listen::{
    check_output_parent, default_output_name, execute_listen_capture, ffmpeg_avfoundation_audio_args,
    find_loopback_device, format_seconds, is_acceptable_exit, parse_avfoundation_audio_devices,
    program_runs_until_killed, recorders_for, sample_count_for, summarize_attempts, AvfAudioDevice,
    ListenArtifact, ListenCaptureResult, ListenSkipReason, Recorder, RecorderAttempt, RecorderOutcome,
    RecorderPlan,
};
use tendril::model::{AudioFormat, AudioSourceKind, AudioSourceSelector, ListenInput};
use tendril::platform::{AudioBackend, PlatformKind};

fn input(source: AudioSourceKind, format: AudioFormat, duration_ms: u64) -> ListenInput {
    ListenInput { source: AudioSourceSelector { kind: source, id: None }, duration_ms, format }
}

#[test]
fn parse_avfoundation_audio_devices_extracts_indexed_audio_devices() {
    let stderr = "[AVFoundation indev @ 0x1] AVFoundation video devices:\n\
[AVFoundation indev @ 0x1] [0] FaceTime HD Camera\n\
[AVFoundation indev @ 0x1] AVFoundation audio devices:\n\
[AVFoundation indev @ 0x1] [0] Steam Streaming Speakers\n\
[AVFoundation indev @ 0x1] [1] BlackHole 2ch\n\
[AVFoundation indev @ 0x1] [2] MacBook Pro Microphone";
    let devices = parse_avfoundation_audio_devices(stderr);
    assert_eq!(devices.len(), 3);
    assert_eq!(devices[1].index, 1);
    assert_eq!(devices[1].name, "BlackHole 2ch");
    assert!(devices.iter().all(|device| device.name != "FaceTime HD Camera"));
}

#[test]
fn find_loopback_device_matches_blackhole() {
    let devices = vec![
        AvfAudioDevice { index: 0, name: "MacBook Pro Microphone".to_owned() },
        AvfAudioDevice { index: 1, name: "BlackHole 2ch".to_owned() },
    ];
    assert_eq!(find_loopback_device(&devices).expect("loopback present").index, 1);
}

#[test]
fn find_loopback_device_returns_none_without_virtual_device() {
    let devices = vec![AvfAudioDevice { index: 0, name: "MacBook Pro Microphone".to_owned() }];
    assert!(find_loopback_device(&devices).is_none());
}

#[test]
fn ffmpeg_avfoundation_audio_args_capture_audio_only_to_wav() {
    let args = ffmpeg_avfoundation_audio_args("1", "/tmp/out.wav", "2", 44_100, 2);
    let i = args.iter().position(|arg| arg == "-i").expect("-i present");
    assert_eq!(args[i + 1], ":1");
    assert_eq!(args.windows(2).find(|w| w[0] == "-f").map(|w| w[1].as_str()), Some("avfoundation"));
    assert_eq!(args.windows(2).find(|w| w[0] == "-t").map(|w| w[1].as_str()), Some("2"));
    assert_eq!(args.last().map(String::as_str), Some("/tmp/out.wav"));
}

#[test]
fn non_wav_format_is_skipped_for_now() {
    let result = execute_listen_capture(
        &input(AudioSourceKind::Microphone, AudioFormat::Flac, 500),
        PlatformKind::Linux,
        Some(AudioBackend::PipeWire),
        Vec::new(),
    );
    match result {
        ListenCaptureResult::Skipped { reason, .. } => assert_eq!(reason, ListenSkipReason::UnsupportedFormat),
        other => panic!("expected Skipped(UnsupportedFormat), got {other:?}"),
    }
}

#[test]
fn device_source_is_skipped_for_now() {
    let result = execute_listen_capture(
        &ListenInput {
            source: AudioSourceSelector { kind: AudioSourceKind::Device, id: Some("alsa_input.42".to_owned()) },
            duration_ms: 500,
            format: AudioFormat::Wav,
        },
        PlatformKind::Linux,
        Some(AudioBackend::PipeWire),
        Vec::new(),
    );
    match result {
        ListenCaptureResult::Skipped { reason, .. } => assert_eq!(reason, ListenSkipReason::UnsupportedSource),
        other => panic!("expected Skipped(UnsupportedSource), got {other:?}"),
    }
}

#[test]
fn windows_capture_is_marked_unsupported_until_implemented() {
    let result = execute_listen_capture(
        &input(AudioSourceKind::Microphone, AudioFormat::Wav, 500),
        PlatformKind::Windows11,
        Some(AudioBackend::Wasapi),
        Vec::new(),
    );
    match result {
        ListenCaptureResult::Skipped { reason, .. } => assert_eq!(reason, ListenSkipReason::UnsupportedPlatform),
        other => panic!("expected Skipped(UnsupportedPlatform), got {other:?}"),
    }
}

#[test]
fn missing_parent_directory_is_rejected_before_spawn() {
    let error = check_output_parent("/nonexistent-tendril-listen/dir", false)
        .expect_err("missing parent directory should be a validation error");
    assert_eq!(error.code(), "invalid_listen_input");
}

#[test]
fn resolve_output_path_accepts_bare_filename_without_parent() {
    assert!(check_output_parent("", false).is_ok());
    assert!(check_output_parent("/tmp", true).is_ok());
    assert_eq!(default_output_name(7, "abc"), "tendril-listen-7-abc.wav");
}

#[test]
fn resolve_output_path_returns_explicit_path_with_existing_parent() {
    assert!(check_output_parent("/tmp/tendril-listen-dir", true).is_ok());
}

#[test]
fn pw_record_args_select_monitor_for_loopback() {
    let plan = RecorderPlan { recorder: Recorder::PwRecord, sample_rate_hz: 48_000, channels: 2 };
    let args = plan.build_args(&input(AudioSourceKind::System, AudioFormat::Wav, 1_000), "/tmp/out.wav", "1", None);
    assert!(args.contains(&"@DEFAULT_MONITOR@".to_owned()));
    assert!(args.contains(&"/tmp/out.wav".to_owned()));
    assert!(args.windows(2).any(|w| w[0] == "-n" && w[1] == "48000"));
}

#[test]
fn sample_count_rounds_up_for_partial_milliseconds() {
    assert_eq!(sample_count_for(48_000, 1), 48);
    assert_eq!(sample_count_for(48_000, 1_500), 72_000);
    assert_eq!(sample_count_for(44_100, 1), 45);
}

#[test]
fn parecord_args_select_default_source_for_microphone() {
    let plan = RecorderPlan { recorder: Recorder::Parecord, sample_rate_hz: 48_000, channels: 2 };
    let args =
        plan.build_args(&input(AudioSourceKind::Microphone, AudioFormat::Wav, 1_000), "/tmp/mic.wav", "1", None);
    assert!(args.contains(&"@DEFAULT_SOURCE@".to_owned()));
    assert!(args.contains(&"--file-format=wav".to_owned()));
}

#[test]
fn format_seconds_uses_integer_when_exact() {
    assert_eq!(format_seconds(3_000), "3");
    assert_eq!(format_seconds(1_500), "1.500");
    assert_eq!(format_seconds(2_005), "2.005");
}

#[test]
fn afrecord_args_request_time_bounded_wav() {
    let plan = RecorderPlan { recorder: Recorder::Afrecord, sample_rate_hz: 44_100, channels: 1 };
    let args =
        plan.build_args(&input(AudioSourceKind::Microphone, AudioFormat::Wav, 2_000), "/tmp/clip.wav", "2", None);
    assert!(args.windows(2).any(|w| w[0] == "-f" && w[1] == "WAVE"));
    assert!(args.windows(2).any(|w| w[0] == "-d" && w[1] == "LEI16"));
    assert!(args.windows(2).any(|w| w[0] == "-t" && w[1] == "2"));
    assert_eq!(args.last().map(String::as_str), Some("/tmp/clip.wav"));
}

#[test]
fn recorders_for_prefers_ffmpeg_on_macos() {
    let plans = recorders_for(PlatformKind::MacOs, None);
    assert_eq!(plans.len(), 2);
    assert_eq!(plans[0].program(), "ffmpeg");
    assert_eq!(plans[1].program(), "afrecord");
}

#[test]
fn recorders_for_uses_parecord_for_pulseaudio() {
    let plans = recorders_for(PlatformKind::Linux, Some(AudioBackend::PulseAudio));
    assert_eq!(plans.len(), 1);
    assert_eq!(plans[0].program(), "parecord");
}

#[test]
fn recorders_for_prefers_pw_record_on_unknown_linux_backend() {
    let plans = recorders_for(PlatformKind::Linux, None);
    let programs: Vec<&str> = plans.iter().map(|p| p.program()).collect();
    assert_eq!(programs, vec!["pw-record", "parecord"]);
}

#[test]
fn recorders_for_is_empty_on_windows_and_android() {
    assert!(recorders_for(PlatformKind::Windows11, None).is_empty());
    assert!(recorders_for(PlatformKind::Android, None).is_empty());
}

#[test]
fn only_parecord_runs_until_killed() {
    assert!(program_runs_until_killed("parecord"));
    assert!(!program_runs_until_killed("pw-record"));
    assert!(!program_runs_until_killed("afrecord"));
}

#[test]
fn nonzero_exit_is_only_acceptable_for_run_until_killed_recorders() {
    assert!(is_acceptable_exit("parecord", false));
    assert!(!is_acceptable_exit("pw-record", false));
    assert!(!is_acceptable_exit("afrecord", false));
    assert!(is_acceptable_exit("afrecord", true));
}

#[test]
fn attempts_summarize_to_capture_failure_or_unavailability() {
    let none = summarize_attempts(vec![RecorderAttempt { program: "pw-record".to_owned(), outcome: RecorderOutcome::NotFound }]);
    assert!(matches!(none, ListenCaptureResult::Skipped { reason: ListenSkipReason::RecorderUnavailable, .. }));
    let failed = summarize_attempts(vec![RecorderAttempt {
        program: "pw-record".to_owned(),
        outcome: RecorderOutcome::Failed { message: "boom".to_owned() },
    }]);
    assert!(matches!(failed, ListenCaptureResult::Failed { .. }));
    let artifact = ListenArtifact {
        path: "/tmp/a.wav".to_owned(),
        media_type: "audio/wav".to_owned(),
        byte_size: 100,
        sample_rate_hz: 48_000,
        channels: 2,
        recorder: "pw-record".to_owned(),
    };
    let ok = summarize_attempts(vec![RecorderAttempt {
        program: "pw-record".to_owned(),
        outcome: RecorderOutcome::Recorded { artifact: artifact.clone() },
    }]);
    assert_eq!(ok.artifact(), Some(&artifact));
}
