use kiri::settings::{
    settings_file, AllSettings, AppSettings, CountdownSettings, HudOverlaySettings,
    RecordingPreferences, SettingsStore, ShortcutProfile, ThemeMode,
};

#[test]
fn recording_prefs_normalize_fps() {
    let prefs = RecordingPreferences {
        fps: 24,
        ..Default::default()
    }
    .normalized();
    assert_eq!(prefs.fps, 60);
}

#[test]
fn countdown_normalizes_to_supported_values() {
    let settings = CountdownSettings { seconds: 9 }.normalized();
    assert_eq!(settings.seconds, 3);
}

#[test]
fn recording_prefs_keep_supported_fps_and_fix_the_rest() {
    for fps in [30, 60] {
        let prefs = RecordingPreferences {
            fps,
            ..Default::default()
        }
        .normalized();
        assert_eq!(prefs.fps, fps);
    }
    let fixed = RecordingPreferences {
        fps: 24,
        ..Default::default()
    }
    .normalized();
    assert_eq!(fixed.fps, 60);
}

#[test]
fn countdown_keeps_supported_values_and_repairs_the_rest() {
    for seconds in [0, 3, 5, 10] {
        let kept = CountdownSettings { seconds }.normalized();
        assert_eq!(kept.seconds, seconds);
    }
    for seconds in [9, u32::MAX] {
        let fixed = CountdownSettings { seconds }.normalized();
        assert_eq!(fixed.seconds, 3);
    }
}

#[test]
fn settings_file_joins_app_data_dir() {
    let joined = settings_file("D:/app-data", "settings.json");
    assert_eq!(joined, "D:/app-data/settings.json");
}

#[test]
fn store_exposes_its_path() {
    let path = String::from("/tmp/kiri-settings/settings.json");
    let store = SettingsStore::<AllSettings>::new(path.clone());
    assert_eq!(store.path(), path.as_str());
}

#[test]
fn settings_file_keeps_a_trailing_separator_and_absolute_names() {
    assert_eq!(settings_file("D:/app-data/", "a.json"), "D:/app-data/a.json");
    assert_eq!(settings_file("", "a.json"), "a.json");
    assert_eq!(settings_file("D:/app-data", "/etc/a.json"), "/etc/a.json");
}

#[test]
fn defaults_match_the_documented_values() {
    let all = AllSettings::default();
    assert_eq!(all.app.theme, ThemeMode::System);
    assert!(all.app.reduce_motion_follows_system);
    assert!(all.app.recordings_dir.is_none());
    assert_eq!(all.recording.fps, 60);
    assert!(all.recording.system_audio);
    assert_eq!(all.countdown.seconds, 3);
    assert_eq!(
        all.hud_overlay,
        HudOverlaySettings {
            visible: true,
            click_effects: false
        }
    );
    assert_eq!(all.shortcuts, ShortcutProfile::CtrlShift);
    let app = AppSettings::default();
    assert_eq!(app.theme, ThemeMode::System);
}

#[test]
fn all_settings_normalize_only_recording_and_countdown() {
    let mut all = AllSettings::default();
    all.recording.fps = 25;
    all.countdown.seconds = 7;
    all.shortcuts = ShortcutProfile::CtrlAlt;
    let normalized = all.normalized();
    assert_eq!(normalized.recording.fps, 60);
    assert_eq!(normalized.countdown.seconds, 3);
    assert_eq!(normalized.shortcuts, ShortcutProfile::CtrlAlt);
    // Normalizing again changes nothing.
    let again = normalized.clone().normalized();
    assert_eq!(again.recording.fps, normalized.recording.fps);
    assert_eq!(again.countdown.seconds, normalized.countdown.seconds);
}

#[test]
fn settings_errors_read_like_the_host_reports_them() {
    let e = kiri::settings::SettingsError::Json("eof".into());
    assert_eq!(e.message(), "settings JSON is invalid: eof");
    let e = kiri::settings::SettingsError::Io("denied".into());
    assert_eq!(e.message(), "settings I/O failed: denied");
}
