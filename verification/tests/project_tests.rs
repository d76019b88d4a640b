use kiri::project::{
    validate_relative_path, CacheEntry, Clip, EditRegion, FrameRate, ProjectError,
    ProjectManifest, RecordingSessionMetadata, SourceKind, SourceMedia, TimeMicros, Track,
    TrackKind,
};

fn fresh_id() -> u128 {
    uuid::Uuid::new_v4().as_u128()
}

#[test]
fn relative_paths_stay_inside_the_project() {
    assert!(validate_relative_path("media/screen-0001.mp4").is_ok());
    assert!(validate_relative_path("telemetry/cursor.jsonl").is_ok());
    assert!(validate_relative_path("media\\screen-0001.mp4").is_ok());
    assert!(validate_relative_path("").is_err());
    assert!(validate_relative_path("../secret.txt").is_err());
    assert!(validate_relative_path("a/../../b.mp4").is_err());
    assert!(validate_relative_path("/absolute/path.mp4").is_err());
}

#[test]
fn time_and_frame_rate_validation_reject_degenerate_values() {
    assert!(TimeMicros(0).validate().is_ok());
    assert!(TimeMicros(-1).validate().is_err());
    assert!(FrameRate { numerator: 30, denominator: 1 }.validate().is_ok());
    assert!(FrameRate { numerator: 0, denominator: 1 }.validate().is_err());
    assert!(FrameRate { numerator: 30, denominator: 0 }.validate().is_err());
}

#[test]
fn manifest_rejects_empty_titles_and_nil_ids() {
    let mut project = ProjectManifest::empty("Demo");
    project.validate().unwrap();
    project.title = "   ".into();
    assert!(project.validate().is_err());
    project.title = "Demo".into();
    project.id = 0;
    assert!(project.validate().is_err());
}

#[test]
fn ids_and_times_are_validated() {
    let mut project = ProjectManifest::empty("Demo");
    project.id = 0;
    assert!(project.validate().is_err());
    project.id = fresh_id();
    project.duration = TimeMicros(-1);
    assert!(project.validate().is_err());
    assert!(validate_relative_path("../secret").is_err());
}

#[test]
fn recording_sessions_with_bad_clocks_are_rejected() {
    let mut project = ProjectManifest::empty("Demo");
    project.recording_sessions.push(RecordingSessionMetadata {
        id: 0,
        wall_time_utc: 1_700_000_000_000_000,
        qpc_origin_ticks: 0,
        qpc_frequency: 0,
        paused_duration: TimeMicros(0),
        interrupted: true,
    });
    assert!(project.validate().is_err());
}

#[test]
fn clips_with_negative_times_are_rejected() {
    let mut project = ProjectManifest::empty("Demo");
    let source_id = fresh_id();
    project.tracks.push(Track {
        id: fresh_id(),
        kind: TrackKind::Screen,
        clips: vec![Clip {
            id: fresh_id(),
            source_id,
            start: TimeMicros(-5),
            duration: TimeMicros(100),
            source_offset: TimeMicros(0),
        }],
    });
    assert!(project.validate().is_err());
}

#[test]
fn manifest_rejects_duplicates_nil_ids_and_empty_kinds() {
    let mut project = ProjectManifest::empty("Demo");

    let dup = fresh_id();
    let source = || SourceMedia {
        id: dup,
        kind: SourceKind::ScreenVideo,
        relative_path: "media/a.mp4".into(),
    };
    project.sources = vec![source(), source()];
    assert!(project.validate().is_err());
    project.sources.clear();

    let track_id = fresh_id();
    project.tracks = vec![
        Track {
            id: 0,
            kind: TrackKind::Screen,
            clips: vec![],
        },
        Track {
            id: track_id,
            kind: TrackKind::Screen,
            clips: vec![],
        },
    ];
    assert!(project.validate().is_err());
    project.tracks.clear();

    project.tracks = vec![Track {
        id: fresh_id(),
        kind: TrackKind::Screen,
        clips: vec![Clip {
            id: 0,
            source_id: fresh_id(),
            start: TimeMicros(0),
            duration: TimeMicros(10),
            source_offset: TimeMicros(0),
        }],
    }];
    assert!(project.validate().is_err());
    project.tracks.clear();

    let region_id = fresh_id();
    project.edit_regions = vec![EditRegion {
        id: region_id,
        kind: "   ".into(),
        start: TimeMicros(0),
        duration: TimeMicros(10),
        payload: "{}".into(),
    }];
    assert!(project.validate().is_err());
    project.edit_regions.clear();
    project.validate().unwrap();
}

#[test]
fn empty_manifest_is_valid_and_current() {
    let project = ProjectManifest::empty("Demo");
    assert_eq!(project.schema_version, kiri::project::CURRENT_SCHEMA_VERSION);
    assert_eq!(project.title, "Demo");
    assert_ne!(project.id, 0);
    assert!(project.sources.is_empty());
    project.validate().unwrap();
}

#[test]
fn validation_reports_the_first_fault_in_words() {
    let mut project = ProjectManifest::empty("Demo");
    project.cache_entries.push(CacheEntry {
        id: fresh_id(),
        kind: "proxy".into(),
        relative_path: "../outside.mp4".into(),
    });
    match project.validate() {
        Err(ProjectError::Validation(message)) => {
            assert!(message.contains("../outside.mp4"), "{message}");
        }
        other => panic!("unexpected {other:?}"),
    }
    let e = ProjectError::UnsupportedSchema(999);
    assert_eq!(e.message(), "unsupported schema version 999");
}
