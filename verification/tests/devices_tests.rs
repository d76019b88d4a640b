use kiri::audio::{
    audio_drift_micros, check_device_available as audio_available, disconnect_error,
    overflow_drop_len, silent_fill_len, start_timeout_error, AudioDevice, AudioError,
    AudioSourceKind, MAX_QUEUED_BYTES,
};
use kiri::camera::{
    camera_index, check_device_available as camera_available, distinct_sorted_formats,
    preferred_format, rgba_to_bgra_bottom_up, CameraDevice, CameraFormat, CameraIndex,
    CameraMetadata,
};

#[test]
fn mirror_is_preview_metadata_only() {
    assert_eq!(
        CameraMetadata::default(),
        CameraMetadata {
            mirrored_in_preview: true,
            mirror_baked_into_source: false
        }
    );
}

fn device(id: &str, kind: AudioSourceKind) -> AudioDevice {
    AudioDevice { id: id.into(), name: "Device".into(), kind, is_default: false }
}

#[test]
fn audio_devices_are_checked_by_kind_and_id() {
    let devices = vec![device("mic:1", AudioSourceKind::Microphone)];
    assert!(audio_available(AudioSourceKind::Microphone, Some("mic:1"), &devices).is_ok());
    assert!(audio_available(AudioSourceKind::Microphone, None, &devices).is_ok());
    match audio_available(AudioSourceKind::Microphone, Some("mic:2"), &devices) {
        Err(AudioError::MicrophoneUnavailable(m)) => assert_eq!(
            m,
            "microphone 'mic:2' was unplugged or disabled; reconnect it or pick another microphone"
        ),
        _ => panic!("expected an error"),
    }
    match audio_available(AudioSourceKind::SystemLoopback, None, &devices) {
        Err(e) => assert!(e.message().starts_with("system audio loopback unavailable: no system-audio")),
        _ => panic!("expected an error"),
    }
    match start_timeout_error(AudioSourceKind::Microphone) {
        AudioError::StartTimeout(m) => assert_eq!(
            m,
            "microphone capture did not start within 12s; the device may be in use by another app"
        ),
        _ => panic!("expected a timeout"),
    }
    assert!(matches!(
        disconnect_error(AudioSourceKind::SystemLoopback, "gone"),
        AudioError::LoopbackUnavailable(_)
    ));
}

#[test]
fn capture_accounting_is_integer_and_bounded() {
    assert_eq!(audio_drift_micros(48_000 * 60, 48_000, 60_100_000), (60_000_000, 100_000));
    assert_eq!(audio_drift_micros(100, 0, 5), (0, 5));
    assert_eq!(silent_fill_len(480, 12), 3840);
    assert_eq!(silent_fill_len(0, 12), 12);
    assert_eq!(overflow_drop_len(MAX_QUEUED_BYTES), 0);
    assert_eq!(overflow_drop_len(MAX_QUEUED_BYTES + 1), 8);
    assert_eq!(overflow_drop_len(MAX_QUEUED_BYTES + 16), 16);
}

#[test]
fn cameras_are_checked_and_formats_ordered() {
    let f = |w, h, fps| CameraFormat { width: w, height: h, fps };
    let cameras = vec![CameraDevice { id: "0".into(), name: "Cam".into(), formats: vec![] }];
    assert!(camera_available("0", &cameras).is_ok());
    assert!(camera_available("1", &cameras).is_err());
    let formats = vec![f(1920, 1080, 30), f(640, 480, 30), f(1920, 1080, 30), f(640, 480, 15)];
    assert_eq!(
        distinct_sorted_formats(&formats),
        vec![f(640, 480, 15), f(640, 480, 30), f(1920, 1080, 30)]
    );
    let offered = vec![f(640, 480, 30), f(1280, 720, 60), f(1280, 720, 30), f(1280, 720, 30)];
    assert_eq!(preferred_format(&offered), Some(2));
    assert_eq!(preferred_format(&vec![]), None);
    assert_eq!(camera_index("2"), CameraIndex::Index(2));
    assert_eq!(camera_index("usb-cam"), CameraIndex::Name("usb-cam".into()));
}

#[test]
fn camera_frames_flip_and_swap_channels() {
    // Two rows of one pixel each: top red, bottom blue (RGBA).
    let rgba = vec![255, 0, 0, 255, 0, 0, 255, 128];
    let bgra = rgba_to_bgra_bottom_up(&rgba, 1, 2);
    assert_eq!(bgra, vec![255, 0, 0, 128, 0, 0, 255, 255]);
}

#[test]
fn camera_frames_keep_a_longer_buffer_length() {
    let rgba = vec![1, 2, 3, 4, 5, 6, 7, 8, 9, 9];
    let bgra = rgba_to_bgra_bottom_up(&rgba, 1, 2);
    assert_eq!(bgra, vec![7, 6, 5, 8, 3, 2, 1, 4, 0, 0]);
}
