use kiri::export::{is_valid_mp4_frame_rate, plan_export, ExportError, ExportPreset, ExportRequest};

fn request() -> ExportRequest {
    ExportRequest {
        project_id: uuid::Uuid::new_v4().as_u128(),
        preset: ExportPreset::FullHd,
        fps: 60,
        video_input: "media/screen-0001.mp4".into(),
        audio_inputs: vec!["media/microphone-0001.wav".into()],
        output: "exports/walkthrough.mp4".into(),
    }
}

#[test]
fn presets_define_dimensions_and_bitrates() {
    assert_eq!(ExportPreset::FullHd.dimensions(), (1920, 1080));
    assert_eq!(ExportPreset::Hd.dimensions(), (1280, 720));
    assert_eq!(ExportPreset::FullHd.video_bitrate(), "12M");
    assert_eq!(ExportPreset::Hd.video_bitrate(), "8M");
    assert_eq!(ExportPreset::default(), ExportPreset::FullHd);
}

#[test]
fn plan_is_deterministic_and_h264_aac() {
    let first = plan_export(&request()).unwrap();
    let second = plan_export(&request()).unwrap();
    assert_eq!(first.ffmpeg_args, second.ffmpeg_args);
    assert!(first.ffmpeg_args.contains(&"libx264".to_string()));
    assert!(first.ffmpeg_args.contains(&"aac".to_string()));
    assert!(first.ffmpeg_args.contains(&"+faststart".to_string()));
    assert_eq!((first.width, first.height), (1920, 1080));
}

#[test]
fn invalid_fps_is_rejected() {
    let mut invalid = request();
    invalid.fps = 23;
    assert!(matches!(plan_export(&invalid).unwrap_err(), ExportError::Invalid(_)));
}

#[test]
fn windows_paths_are_normalized_to_forward_slashes() {
    let mut req = request();
    req.video_input = "media\\screen-0001.mp4".into();
    req.output = "exports\\walkthrough.mp4".into();
    let plan = plan_export(&req).unwrap();
    assert!(plan.ffmpeg_args.contains(&"media/screen-0001.mp4".to_string()));
    assert!(plan.ffmpeg_args.contains(&"exports/walkthrough.mp4".to_string()));
}

#[test]
fn multiple_audio_inputs_each_add_an_input_flag() {
    let mut req = request();
    req.audio_inputs = vec!["media/mic.wav".into(), "media/system.wav".into()];
    let plan = plan_export(&req).unwrap();
    let inputs = plan.ffmpeg_args.iter().filter(|a| a.as_str() == "-i").count();
    assert_eq!(inputs, 3);
}

#[test]
fn plan_arguments_are_exactly_the_documented_list() {
    let plan = plan_export(&request()).unwrap();
    let expected: Vec<&str> = vec![
        "-y", "-i", "media/screen-0001.mp4", "-i", "media/microphone-0001.wav", "-map", "0:v:0",
        "-map", "1:a:0?", "-c:v", "libx264", "-preset", "medium", "-crf", "18", "-pix_fmt",
        "yuv420p", "-r", "60", "-c:a", "aac", "-b:a", "192k", "-ar", "48000", "-movflags",
        "+faststart", "exports/walkthrough.mp4",
    ];
    assert_eq!(plan.ffmpeg_args, expected);
    assert_eq!(plan.output, "exports/walkthrough.mp4");
    assert_eq!(plan.fps, 60);
}

#[test]
fn validation_names_the_first_problem() {
    let mut req = request();
    req.fps = 25;
    req.video_input = String::new();
    match req.validate() {
        Err(ExportError::Invalid(m)) => assert_eq!(m, "unsupported export fps 25"),
        _ => panic!("expected an error"),
    }
    req.fps = 30;
    match req.validate() {
        Err(ExportError::Invalid(m)) => assert_eq!(m, "video input is required"),
        _ => panic!("expected an error"),
    }
    req.video_input = "v.mp4".into();
    req.output = String::new();
    match plan_export(&req) {
        Err(e) => assert_eq!(e.message(), "invalid export plan: export output is required"),
        _ => panic!("expected an error"),
    }
}

#[test]
fn cancel_token_is_shared_and_cooperative() {
    let token = kiri::export::ExportCancelToken::new();
    assert!(!token.is_cancelled());
    let shared = token.clone();
    token.cancel();
    assert!(token.is_cancelled());
    assert!(shared.is_cancelled());
    assert_eq!(ExportError::Cancelled.message(), "export cancelled");
}

#[test]
fn mp4_policy_accepts_24_30_60_only() {
    for fps in [24, 30, 60] {
        assert!(is_valid_mp4_frame_rate(fps), "fps {fps} should be valid");
        let mut req = request();
        req.fps = fps;
        assert!(plan_export(&req).is_ok());
    }
    for fps in [0, 1, 23, 25, 29, 31, 59, 61, 120] {
        assert!(!is_valid_mp4_frame_rate(fps), "fps {fps} should be invalid");
    }
    let mut bad = request();
    bad.fps = 23;
    assert!(plan_export(&bad).is_err());
}

#[test]
fn validation_rejects_missing_inputs_outputs_and_extensions() {
    let mut no_video = request();
    no_video.video_input = String::new();
    assert!(plan_export(&no_video).is_err());

    let mut no_output = request();
    no_output.output = String::new();
    assert!(plan_export(&no_output).is_err());

    for bad in ["exports/walkthrough.mkv", "exports/walkthrough", "exports/walkthrough.MP3"] {
        let mut req = request();
        req.output = bad.into();
        assert!(plan_export(&req).is_err(), "{bad} should be rejected");
    }
    let mut upper = request();
    upper.output = "exports/walkthrough.MP4".into();
    assert!(plan_export(&upper).is_ok());

    let mut too_many = request();
    too_many.audio_inputs = (0..9).map(|i| format!("a{i}.wav")).collect();
    assert!(plan_export(&too_many).is_err());
    too_many.audio_inputs.pop();
    assert!(plan_export(&too_many).is_ok());
}

#[test]
fn export_refusals_name_the_rule() {
    let mut req = request();
    req.output = "exports/walkthrough.mkv".into();
    match req.validate() {
        Err(ExportError::Invalid(m)) => assert_eq!(m, "export output must be an .mp4 file"),
        _ => panic!("expected an error"),
    }
    let mut req = request();
    req.audio_inputs = (0..9).map(|i| format!("a{i}.wav")).collect();
    match req.validate() {
        Err(ExportError::Invalid(m)) => assert_eq!(m, "at most 8 audio inputs can be exported"),
        _ => panic!("expected an error"),
    }
}

#[test]
fn plan_is_deterministic_h264_aac_faststart() {
    let first = plan_export(&request()).unwrap();
    let second = plan_export(&request()).unwrap();
    assert_eq!(first.ffmpeg_args, second.ffmpeg_args);
    let args = &first.ffmpeg_args;
    assert!(args.contains(&"libx264".to_string()));
    assert!(args.contains(&"aac".to_string()));
    assert!(args.contains(&"+faststart".to_string()));
    let preset_pos = args.iter().position(|a| a == "-preset").unwrap();
    assert_eq!(args[preset_pos + 1], "medium");
    let crf_pos = args.iter().position(|a| a == "-crf").unwrap();
    assert_eq!(args[crf_pos + 1], "18");
    assert_eq!((first.width, first.height), (1920, 1080));
}
