use kiri::clock::{paused_total_at, RecordingClock};
use kiri::capture::{ClockOrigin, RecoveryManifest, RecoverySegment, SegmentKind};
use kiri::project::{ProjectManifest, SourceKind};
use kiri::session::{
    add_recovered_sources, append_source, check_can_pause, check_can_resume, check_can_start,
    check_can_stop, paused_status, project_root_for, safe_project_name, segment_path,
    source_kind_for, started_status, stopped_status, summary, ActiveSession, CommandError,
    StartRecordingRequest,
};

fn request(mic: bool, system_audio: bool, camera: bool) -> StartRecordingRequest {
    StartRecordingRequest {
        project_path: "/projects/demo.kiri".into(),
        source_id: "display:1".into(),
        microphone_id: if mic { Some("mic:1".into()) } else { None },
        system_audio,
        camera_id: if camera { Some("0".into()) } else { None },
        fps: 60,
    }
}

fn session(mic: bool, system_audio: bool, camera: bool) -> ActiveSession {
    let origin = ClockOrigin { wall_time_utc: 0, qpc_ticks: 0, qpc_frequency: 1_000_000_000 };
    ActiveSession::new(request(mic, system_audio, camera), RecoveryManifest::new(42, origin))
}

fn recording_message(e: CommandError) -> String {
    match e {
        CommandError::Recording(m) => m,
        other => panic!("unexpected {other:?}"),
    }
}

#[test]
fn project_names_are_trimmed_and_made_file_safe() {
    assert_eq!(safe_project_name("  My: Demo?  ").unwrap(), "My- Demo-");
    assert_eq!(safe_project_name("a/b\\c<d>e|f*g\"h").unwrap(), "a-b-c-d-e-f-g-h");
    for bad in ["", "   ", ".", "..", " .. "] {
        match safe_project_name(bad) {
            Err(CommandError::InvalidPath(t)) => assert_eq!(t, bad),
            _ => panic!("{bad:?} should be refused"),
        }
    }
    assert_eq!(project_root_for("/home/me", "Demo").unwrap(), "/home/me/Demo.kiri");
    let e = safe_project_name("..").unwrap_err();
    assert_eq!(e.message(), "invalid project location: ..");
}

#[test]
fn segment_files_follow_the_project_layout() {
    assert_eq!(segment_path(SegmentKind::Screen, 1), "media/screen-0001.mp4");
    assert_eq!(segment_path(SegmentKind::Microphone, 12), "media/microphone-0012.wav");
    assert_eq!(segment_path(SegmentKind::SystemAudio, 3), "media/system-audio-0003.wav");
    assert_eq!(segment_path(SegmentKind::Camera, 10000), "media/camera-10000.mp4");
    assert_eq!(segment_path(SegmentKind::Cursor, 2), "telemetry/cursor.jsonl");
    assert_eq!(segment_path(SegmentKind::Clicks, 2), "telemetry/clicks.jsonl");
}

#[test]
fn first_segment_plans_every_requested_source_and_the_telemetry() {
    let mut s = session(true, true, true);
    s.plan_current_segment(500);
    let kinds: Vec<SegmentKind> = s.recovery.segments.iter().map(|x| x.kind).collect();
    assert_eq!(
        kinds,
        vec![
            SegmentKind::Screen,
            SegmentKind::Microphone,
            SegmentKind::SystemAudio,
            SegmentKind::Camera,
            SegmentKind::Cursor,
            SegmentKind::Clicks
        ]
    );
    assert_eq!(s.recovery.segments[0].start_micros, 500);
    assert_eq!(s.recovery.segments[4].start_micros, 0);
    assert!(s.recovery.segments.iter().all(|x| !x.finalized && x.duration_micros.is_none()));
}

#[test]
fn later_segments_plan_only_media() {
    let mut s = session(false, true, false);
    s.plan_current_segment(0);
    s.pause(1_000);
    assert!(check_can_pause(&Some(s_clone_paused(&s))).is_err());
    s.resume();
    s.plan_current_segment(2_000);
    s.segment_started();
    let paths: Vec<String> = s.recovery.segments.iter().map(|x| x.relative_path.clone()).collect();
    assert_eq!(
        paths,
        vec![
            "media/screen-0001.mp4",
            "media/system-audio-0001.wav",
            "telemetry/cursor.jsonl",
            "telemetry/clicks.jsonl",
            "media/screen-0002.mp4",
            "media/system-audio-0002.wav",
        ]
    );
    assert_eq!(s.segment_index, 2);
    assert!(!s.paused);
}

fn s_clone_paused(s: &ActiveSession) -> ActiveSession {
    let origin = ClockOrigin { wall_time_utc: 0, qpc_ticks: 0, qpc_frequency: 1 };
    let mut copy = ActiveSession::new(s.request.clone(), RecoveryManifest::new(1, origin));
    copy.paused = s.paused;
    copy
}

#[test]
fn pausing_finalizes_open_segments_from_their_start() {
    let mut s = session(true, false, false);
    s.plan_current_segment(100);
    s.recovery.mark_source_ready(SegmentKind::Microphone, 250);
    s.pause(1_100);
    let segs = &s.recovery.segments;
    assert!(segs.iter().all(|x| x.finalized));
    assert_eq!(segs[0].duration_micros, Some(1_000));
    assert_eq!(segs[1].start_micros, 250);
    assert_eq!(segs[1].duration_micros, Some(850));
    assert_eq!(segs[2].duration_micros, Some(1_100));
    assert!(s.paused);
}

#[test]
fn pause_and_resume_are_guarded() {
    assert_eq!(recording_message(check_can_pause(&None).unwrap_err()), "no recording is active");
    assert_eq!(recording_message(check_can_resume(&None).unwrap_err()), "no recording is active");
    assert_eq!(recording_message(check_can_stop(&None).unwrap_err()), "no recording is active");
    let s = session(false, false, false);
    assert_eq!(
        recording_message(check_can_resume(&Some(s_clone_paused(&s))).unwrap_err()),
        "recording is not paused"
    );
    let mut p = s_clone_paused(&s);
    p.paused = true;
    let slot = Some(p);
    assert_eq!(
        recording_message(check_can_pause(&slot).unwrap_err()),
        "recording is already paused"
    );
    assert!(check_can_resume(&slot).is_ok());
    assert_eq!(
        recording_message(check_can_start(&slot).unwrap_err()),
        "a recording is already active"
    );
    assert!(check_can_start(&None).is_ok());
}

#[test]
fn device_events_are_recorded_once_and_shown_newest_first() {
    let mut s = session(true, false, true);
    assert_eq!(s.status(5).message, "Recording session is active");
    s.note_device_missing("microphone disconnected");
    s.note_device_missing("microphone disconnected");
    s.note_device_missing("camera disconnected");
    assert_eq!(s.device_events.len(), 2);
    let status = s.status(5);
    assert_eq!(status.message, "camera disconnected");
    assert_eq!(status.state, "recording");
    assert_eq!(status.elapsed_micros, 5);
    let started = started_status();
    assert_eq!((started.state.as_str(), started.segment_index), ("recording", 1));
    assert_eq!(paused_status(9, 2).message, "Recording paused; segment finalized");
    assert_eq!(stopped_status(9, 2).state, "stopped");
}

#[test]
fn recovered_media_becomes_sources_once() {
    let mut project = ProjectManifest::empty("Demo");
    let seg = |kind, path: &str| RecoverySegment {
        id: 1,
        kind,
        relative_path: path.into(),
        start_micros: 0,
        duration_micros: Some(1),
        finalized: true,
    };
    let playable = vec![
        seg(SegmentKind::Screen, "media\\screen-0001.mp4"),
        seg(SegmentKind::Cursor, "telemetry/cursor.jsonl"),
        seg(SegmentKind::Microphone, "media/microphone-0001.wav"),
    ];
    add_recovered_sources(&mut project, &playable);
    assert_eq!(project.sources.len(), 2);
    assert_eq!(project.sources[0].relative_path, "media/screen-0001.mp4");
    assert_eq!(project.sources[0].kind, SourceKind::ScreenVideo);
    assert_eq!(project.sources[1].kind, SourceKind::MicrophoneAudio);
    add_recovered_sources(&mut project, &playable);
    assert_eq!(project.sources.len(), 2);
    append_source(&mut project, SourceKind::CameraVideo, "media/camera-0001.mp4");
    assert_eq!(project.sources.len(), 3);
    project.validate().unwrap();
    assert_eq!(source_kind_for(SegmentKind::Clicks), None);
}

#[test]
fn summaries_carry_the_id_title_and_time() {
    let mut project = ProjectManifest::empty("Demo");
    project.id = 0x67e5504410b1426f9247bb680e5fe0c8;
    project.updated_at = 1_662_921_288_000_000;
    let s = summary("/projects/demo.kiri", &project);
    assert_eq!(s.id, "67e55044-10b1-426f-9247-bb680e5fe0c8");
    assert_eq!(s.title, "Demo");
    assert_eq!(s.path, "/projects/demo.kiri");
    assert_eq!(s.updated_at, "2022-09-11T18:34:48+00:00");
    assert!(!s.missing);
}

#[test]
fn screen_bitrate_follows_the_frame_rate() {
    let mut r = request(false, false, false);
    let c = kiri::session::screen_config(&r, "out.mp4".into());
    assert_eq!(c.bitrate, 16_000_000);
    assert_eq!(c.fps, 60);
    assert_eq!(c.source_id, "display:1");
    assert_eq!(c.output, "out.mp4");
    r.fps = 30;
    assert_eq!(kiri::session::screen_config(&r, "o".into()).bitrate, 10_000_000);
}

fn source(id: &str, left: i32) -> kiri::capture::CaptureSource {
    kiri::capture::CaptureSource {
        id: id.into(),
        kind: kiri::capture::CaptureSourceKind::Display,
        title: "Display".into(),
        process_name: None,
        bounds: kiri::capture::RectI32 { left, top: 0, width: 100, height: 50 },
        dpi: 96,
        availability: kiri::capture::SourceAvailability::Available,
        thumbnail_data_url: None,
    }
}

#[test]
fn telemetry_uses_the_first_source_with_the_id() {
    let sources = vec![source("a", 1), source("b", 2), source("b", 3)];
    assert_eq!(kiri::session::telemetry_bounds(&sources, "b").unwrap().left, 2);
    let e = kiri::session::telemetry_bounds(&sources, "c").unwrap_err();
    assert_eq!(recording_message(e), "selected source closed before telemetry started");
}

#[test]
fn recording_sessions_are_opened_and_closed_on_the_project() {
    let mut project = ProjectManifest::empty("Demo");
    let origin = ClockOrigin { wall_time_utc: 5, qpc_ticks: 6, qpc_frequency: 7 };
    let recovery = RecoveryManifest::new(project.id, origin);
    kiri::session::begin_recording_session(&mut project, &recovery, 60);
    assert_eq!(project.frame_rate.numerator, 60);
    assert_eq!(project.recording_sessions.len(), 1);
    let s = &project.recording_sessions[0];
    assert_eq!(s.id, recovery.session_id);
    assert_eq!((s.wall_time_utc, s.qpc_origin_ticks, s.qpc_frequency), (5, 6, 7));
    assert!(s.interrupted);
    kiri::session::end_recording_session(&mut project, recovery.session_id.wrapping_add(1), 9);
    assert!(project.recording_sessions[0].interrupted);
    kiri::session::end_recording_session(&mut project, recovery.session_id, 1_500);
    assert!(!project.recording_sessions[0].interrupted);
    assert_eq!(project.duration.0, 1_500);
}

#[test]
fn missing_devices_are_noted_once() {
    let mut s = session(true, false, false);
    let listed = vec!["mic:2".to_string()];
    s.note_device_presence(&Some("mic:1".into()), &listed, "microphone disconnected");
    s.note_device_presence(&Some("mic:1".into()), &listed, "microphone disconnected");
    assert_eq!(s.device_events, vec!["microphone disconnected".to_string()]);
    s.note_device_presence(&Some("mic:2".into()), &listed, "other");
    s.note_device_presence(&None, &listed, "camera disconnected");
    assert_eq!(s.device_events.len(), 1);
}

#[test]
fn only_active_recoveries_of_present_projects_are_offered() {
    let recent = kiri::persistence::RecentProject {
        project_id: "p".into(),
        title: "Demo".into(),
        path: "/projects/demo.kiri".into(),
        updated_at: "".into(),
        missing: false,
    };
    let origin = ClockOrigin { wall_time_utc: 0, qpc_ticks: 0, qpc_frequency: 1_000_000_000 };
    let mut recovery = RecoveryManifest::new(1, origin);
    recovery.session_id = 0x0123_4567_89ab_4def_8123_4567_89ab_cdef;
    let c = kiri::session::recovery_candidate(&recent, &Some(recovery.clone()), 3).unwrap();
    assert_eq!(c.project_path, "/projects/demo.kiri");
    assert_eq!(c.project_title, "Demo");
    assert_eq!(c.session_id, "01234567-89ab-4def-8123-456789abcdef");
    assert_eq!(c.finalized_segments, 3);
    let mut inactive = recovery.clone();
    inactive.active = false;
    assert!(kiri::session::recovery_candidate(&recent, &Some(inactive), 3).is_none());
    assert!(kiri::session::recovery_candidate(&recent, &None, 0).is_none());
    let mut gone = recent.clone();
    gone.missing = true;
    assert!(kiri::session::recovery_candidate(&gone, &Some(recovery), 3).is_none());
}

#[test]
fn clock_origin_counts_nanoseconds_from_zero() {
    let origin = ClockOrigin::now().unwrap();
    assert_eq!(origin.qpc_ticks, 0);
    assert_eq!(origin.qpc_frequency, 1_000_000_000);
    assert!(origin.wall_time_utc > 0);
    assert_eq!(origin.ticks_to_micros(2_000).unwrap(), 2);
}

#[test]
fn recovered_sources_keep_each_segment_kind_and_skip_repeats() {
    let mut project = ProjectManifest::empty("Demo");
    let seg = |kind, path: &str| RecoverySegment {
        id: 1,
        kind,
        relative_path: path.into(),
        start_micros: 0,
        duration_micros: Some(1),
        finalized: true,
    };
    let playable = vec![
        seg(SegmentKind::Camera, "media/camera-0001.mp4"),
        seg(SegmentKind::SystemAudio, "media/system-0001.wav"),
        seg(SegmentKind::Camera, "media\\camera-0001.mp4"),
        seg(SegmentKind::Clicks, "telemetry/clicks.jsonl"),
    ];
    add_recovered_sources(&mut project, &playable);
    assert_eq!(project.sources.len(), 2);
    assert_eq!(project.sources[0].kind, SourceKind::CameraVideo);
    assert_eq!(project.sources[1].kind, SourceKind::SystemAudio);
    assert_eq!(project.sources[1].relative_path, "media/system-0001.wav");
    assert_ne!(project.sources[0].id, project.sources[1].id);
}

#[test]
fn pausing_gives_open_segments_their_length() {
    let mut s = session(false, false, false);
    s.plan_current_segment(1_000);
    s.pause(4_500);
    assert!(s.recovery.segments.iter().all(|seg| seg.finalized));
    assert_eq!(s.recovery.segments[0].duration_micros, Some(3_500));
    s.pause(9_000);
    assert_eq!(s.recovery.segments[0].duration_micros, Some(3_500));
}

#[test]
fn paused_time_counts_the_running_pause() {
    assert_eq!(paused_total_at(10, 100, 250), 160);
    assert_eq!(paused_total_at(10, 100, 50), 10);
    assert_eq!(paused_total_at(u64::MAX - 5, 0, 100), u64::MAX);
    let origin = ClockOrigin { wall_time_utc: 0, qpc_ticks: 0, qpc_frequency: 1_000_000_000 };
    let mut clock = RecordingClock::start(origin);
    assert_eq!(clock.paused_duration_at(1_000_000), 0);
    clock.pause();
    assert!(clock.paused_duration_at(u64::MAX) > 0);
    clock.resume_at(u64::MAX);
    assert_eq!(clock.paused_duration_at(5), i64::MAX);
}
