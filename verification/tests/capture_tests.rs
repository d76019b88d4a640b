use kiri::cancel::CancellationToken;
use kiri::capture::{
    audio_timing_sidecar_path, default_video_bitrate, diagnostics_sidecar_path, effective_bitrate,
    effective_dpi, is_safe_relative_segment_path, min_bytes_for_segment_kind, rect,
    truncate_diagnostics_text, CaptureError, ClockOrigin, RecoveryManifest, RecoverySegment,
    SegmentKind, SourceAvailability, MAX_DIAGNOSTICS_TEXT_CHARS, RECOVERY_SCHEMA_VERSION,
};
use kiri::queue::bounded_queue;
use kiri::screen::{
    capture_target, check_screen_config, display_capture_size, min_frame_interval_micros,
    should_drop_frame, thumbnail_data_url, window_capture_size, CaptureTarget,
    ScreenRecordingConfig,
};

fn origin() -> ClockOrigin {
    ClockOrigin {
        wall_time_utc: 1_700_000_000_000_000,
        qpc_ticks: 10_000,
        qpc_frequency: 10_000_000,
    }
}

fn segment(kind: SegmentKind, path: &str, start: i64, finalized: bool) -> RecoverySegment {
    RecoverySegment {
        id: uuid::Uuid::new_v4().as_u128(),
        kind,
        relative_path: path.into(),
        start_micros: start,
        duration_micros: if finalized { Some(1_000_000) } else { None },
        finalized,
    }
}

#[test]
fn timestamp_conversion_is_integer_and_relative() {
    let origin = origin();
    assert_eq!(origin.ticks_to_micros(10_010).unwrap(), 1);
    assert_eq!(origin.ticks_to_micros(20_010_000).unwrap(), 2_000_000);
}

#[test]
fn clock_ticks_property_covers_overflow_and_bad_frequency() {
    let origin = origin();
    assert_eq!(origin.ticks_to_micros(10_010).unwrap(), 1);
    assert_eq!(origin.ticks_to_micros(9_990).unwrap(), -1);
    assert!(origin.ticks_to_micros(i64::MAX).is_err());
    for bad_frequency in [0, -1, i64::MIN] {
        let bad = ClockOrigin {
            wall_time_utc: 1_700_000_000_000_000,
            qpc_ticks: 0,
            qpc_frequency: bad_frequency,
        };
        assert!(bad.ticks_to_micros(100).is_err());
    }
    let twenty_min_ticks = 10_000 + 10_000_000 * 60 * 20;
    assert_eq!(origin.ticks_to_micros(twenty_min_ticks).unwrap(), 1_200_000_000);
}

#[test]
fn recordly_sidecar_naming_matches_reference_conventions() {
    let video = "media/screen-0001.mp4";
    assert_eq!(
        diagnostics_sidecar_path(video),
        "media/screen-0001.recording-diagnostics.json"
    );
    let audio = "media/microphone-0001.wav";
    assert_eq!(audio_timing_sidecar_path(audio), "media/microphone-0001.wav.json");
}

#[test]
fn default_bitrate_follows_recordly_tiers() {
    assert_eq!(default_video_bitrate(1920, 1080, 30), 18_000_000);
    assert_eq!(default_video_bitrate(1920, 1080, 60), 24_300_000);
    assert_eq!(default_video_bitrate(2560, 1440, 30), 28_000_000);
    assert_eq!(default_video_bitrate(3840, 2160, 30), 45_000_000);
    assert_eq!(default_video_bitrate(3840, 2160, 60), 60_750_000);
    assert!(default_video_bitrate(0, 0, 30) > 0);
}

#[test]
fn zero_bitrate_config_falls_back_to_recordly_tiers() {
    assert_eq!(default_video_bitrate(1920, 1080, 30), 18_000_000);
    assert_eq!(default_video_bitrate(1920, 1080, 60), 24_300_000);
    assert_eq!(effective_bitrate(0, 1920, 1080, 60), 24_300_000);
    assert_eq!(effective_bitrate(16_000_000, 1920, 1080, 60), 16_000_000);
}

#[test]
fn rect_conversion_never_panics_on_hostile_input() {
    let converted = rect(i32::MIN, i32::MIN, i32::MAX, i32::MAX);
    assert_eq!(converted.left, i32::MIN);
    assert_eq!(converted.width, i32::MAX);
    let converted = rect(100, 100, 50, 40);
    assert_eq!(converted.width, -50);
    assert_eq!(converted.height, -60);
}

#[test]
fn dpi_fallback_keeps_dead_handles_sane() {
    assert_eq!(effective_dpi(0, 96), 96);
    assert_eq!(effective_dpi(0, 0), 96);
    assert_eq!(effective_dpi(144, 96), 144);
}

#[test]
fn window_extent_math_rejects_empty_area_without_panicking() {
    assert!(window_capture_size(i32::MIN, 0, i32::MAX, 100).is_err());
    assert_eq!(window_capture_size(0, 0, 1920, 1080).unwrap(), (1920, 1080));
    assert!(window_capture_size(100, 0, 100, 50).is_err());
    assert_eq!(window_capture_size(-1, 0, i32::MAX, 1).unwrap(), (2_147_483_648, 1));
    assert_eq!(window_capture_size(i32::MIN, 0, i32::MAX - 1, 1).unwrap(), (4_294_967_294, 1));
    assert!(display_capture_size(0, 1080).is_err());
    assert_eq!(display_capture_size(1920, 1080).unwrap(), (1920, 1080));
}

#[test]
fn thumbnail_failure_does_not_fail_source_listing_contract() {
    let available = SourceAvailability::Available;
    assert!(matches!(available, SourceAvailability::Available));
    assert!(thumbnail_data_url(&Vec::new()).is_err());
}

#[test]
fn thumbnail_is_a_base64_jpeg_data_url() {
    let url = thumbnail_data_url(&vec![0xff, 0xd8, 0xff]).unwrap();
    assert_eq!(url, "data:image/jpeg;base64,/9j/");
    let url = thumbnail_data_url(&b"Man".to_vec()).unwrap();
    assert_eq!(url, "data:image/jpeg;base64,TWFu");
}

#[test]
fn bounded_queue_drops_without_blocking_and_cancels() {
    let (sender, receiver) = bounded_queue(1).unwrap();
    assert!(sender.try_send(1).is_ok());
    assert_eq!(sender.try_send(2), Err(2));
    assert_eq!(receiver.dropped(), 1);
    assert_eq!(receiver.recv_timeout_millis(1), Some(1));
    let token = CancellationToken::default();
    token.cancel();
    assert!(token.is_cancelled());
    assert!(bounded_queue::<u8>(0).is_err());
}

#[test]
fn cancellation_is_shared_between_clones() {
    let token = CancellationToken::new();
    let shared = token.clone();
    assert!(!shared.is_cancelled());
    token.cancel();
    assert!(shared.is_cancelled());
}

#[test]
fn segment_paths_must_stay_inside_the_project() {
    assert!(is_safe_relative_segment_path("media/screen-0001.mp4"));
    assert!(is_safe_relative_segment_path("telemetry/cursor.jsonl"));
    for evil in [
        "",
        "/tmp/outside.mp4",
        "../outside.mp4",
        "../../etc/passwd",
        "media/../../outside.mp4",
        "C:/outside.mp4",
        ".",
        "media/..",
    ] {
        assert!(!is_safe_relative_segment_path(evil), "{evil}");
    }
    assert!(is_safe_relative_segment_path("media/../screen.mp4"));
}

#[test]
fn playable_segments_keep_only_finalized_large_enough_files() {
    let mut manifest = RecoveryManifest::new(uuid::Uuid::new_v4().as_u128(), origin());
    assert!(manifest.active);
    assert_eq!(manifest.schema_version, RECOVERY_SCHEMA_VERSION);
    manifest.segments.push(segment(SegmentKind::Screen, "media/screen-0001.mp4", 0, true));
    manifest.segments.push(segment(SegmentKind::Screen, "media/screen-0002.mp4", 300, true));
    manifest.segments.push(segment(SegmentKind::Camera, "media/camera-0001.mp4", 0, false));
    manifest.segments.push(segment(SegmentKind::Cursor, "telemetry/cursor.jsonl", 0, true));
    manifest.segments.push(segment(SegmentKind::Screen, "../outside.mp4", 0, true));
    let found = vec![Some(1023), Some(1024), Some(4096), Some(3), Some(4096)];
    let playable = manifest.playable_segments(&found);
    assert_eq!(playable.len(), 2);
    assert_eq!(playable[0].relative_path, "media/screen-0002.mp4");
    assert_eq!(playable[1].relative_path, "telemetry/cursor.jsonl");
    assert_eq!(min_bytes_for_segment_kind(SegmentKind::Microphone), 1024);
    assert_eq!(min_bytes_for_segment_kind(SegmentKind::Clicks), 1);
}

#[test]
fn replayed_manifests_with_another_schema_are_refused() {
    let mut manifest = RecoveryManifest::new(7, origin());
    manifest.schema_version = 999;
    match manifest.check_schema() {
        Err(CaptureError::InvalidConfig(m)) => assert_eq!(m, "unsupported recovery manifest"),
        _ => panic!("expected a schema error"),
    }
    let manifest = RecoveryManifest::new(7, origin());
    assert!(manifest.check_schema().is_ok());
}

#[test]
fn long_diagnostics_text_keeps_its_tail() {
    assert_eq!(truncate_diagnostics_text("short", 10), "short");
    assert_eq!(truncate_diagnostics_text("abcdef", 3), "def\n[truncated to last 3 chars]");
    let huge = "y".repeat(MAX_DIAGNOSTICS_TEXT_CHARS + 5_000);
    let stored = truncate_diagnostics_text(&huge, MAX_DIAGNOSTICS_TEXT_CHARS);
    assert!(stored.contains("truncated to last"));
    assert!(stored.chars().count() <= MAX_DIAGNOSTICS_TEXT_CHARS + 100);
}

#[test]
fn screen_configs_and_targets_are_checked() {
    let config = ScreenRecordingConfig {
        source_id: "display:\\\\.\\DISPLAY1".into(),
        output: "media/screen-0001.mp4".into(),
        fps: 24,
        bitrate: 0,
    };
    assert!(check_screen_config(&config).is_err());
    let config = ScreenRecordingConfig { fps: 60, ..config.clone() };
    assert!(check_screen_config(&config).is_ok());
    let blank = ScreenRecordingConfig { source_id: "  ".into(), ..config.clone() };
    assert!(check_screen_config(&blank).is_err());
    assert_eq!(
        capture_target("display:\\\\.\\DISPLAY1").unwrap(),
        CaptureTarget::Display("\\\\.\\DISPLAY1".into())
    );
    assert_eq!(capture_target("window:65554").unwrap(), CaptureTarget::Window(65554));
    assert!(capture_target("window:abc").is_err());
    assert!(capture_target("screen:1").is_err());
    assert_eq!(min_frame_interval_micros(60), 16_666);
    assert_eq!(min_frame_interval_micros(0), 1_000_000);
    assert!(should_drop_frame(Some(1_000), 16_666));
    assert!(!should_drop_frame(Some(12_000), 16_666));
    assert!(!should_drop_frame(None, 16_666));
}

#[test]
fn capture_errors_read_like_the_host_reports_them() {
    let e = CaptureError::InvalidConfig("bad".into());
    assert_eq!(e.message(), "invalid capture configuration: bad");
}

#[test]
fn listed_source_ids_name_their_capture_target() {
    let display = kiri::screen::display_source_id("\\\\.\\DISPLAY2");
    assert_eq!(display, "display:\\\\.\\DISPLAY2");
    assert_eq!(capture_target(&display).unwrap(), CaptureTarget::Display("\\\\.\\DISPLAY2".into()));
    let window = kiri::screen::window_source_id(65554);
    assert_eq!(window, "window:65554");
    assert_eq!(capture_target(&window).unwrap(), CaptureTarget::Window(65554));
    assert_eq!(kiri::screen::window_source_id(0), "window:0");
}

#[test]
fn only_drive_prefixes_and_roots_are_refused_for_segments() {
    assert!(is_safe_relative_segment_path("media/clip:1.mp4"));
    assert!(!is_safe_relative_segment_path("C:media/screen.mp4"));
    assert!(!is_safe_relative_segment_path("\\\\server\\share\\a.mp4"));
    assert!(kiri::screen::should_drop_frame(Some(10), u64::MAX));
    assert!(!kiri::screen::should_drop_frame(Some(700_000), 1_000_000));
}

#[test]
fn strict_replay_refuses_corrupt_lines() {
    let records: Vec<kiri::capture::TelemetryRecord<u8>> = vec![kiri::capture::TelemetryRecord {
        schema_version: 1,
        timestamp_micros: 5,
        payload: 7,
    }];
    match kiri::capture::strict_replay(records, 2, "t/cursor.jsonl") {
        Err(kiri::capture::CaptureError::InvalidConfig(m)) => {
            assert_eq!(m, "telemetry file has 2 corrupt line(s): t/cursor.jsonl")
        }
        _ => panic!("expected an error"),
    }
    let ok = kiri::capture::strict_replay(vec![kiri::capture::TelemetryRecord { schema_version: 1, timestamp_micros: 5, payload: 7u8 }], 0, "p").unwrap();
    assert_eq!(ok.len(), 1);
    assert_eq!(ok[0].payload, 7);
}
