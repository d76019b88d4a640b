//! Typed application settings: defaults, normalisation rules, and where each
//! settings document lives. Reading and writing the JSON files is left to the
//! host.
use vstd::prelude::*;
use crate::paths::{join_path, joined};
use crate::text::owned;
use core::marker::PhantomData;

verus! {

#[derive(Debug, Clone)]
pub enum SettingsError {
    Io(String),
    Json(String),
}

impl SettingsError {
    /// The message shown to the user.
    pub fn message(&self) -> (m: String)
        ensures
            m@ == settings_error_text(*self),
    {
        match self {
            SettingsError::Io(d) => crate::text::concat("settings I/O failed: ", d.as_str()),
            SettingsError::Json(d) => crate::text::concat(
                "settings JSON is invalid: ",
                d.as_str(),
            ),
        }
    }
}

pub open spec fn settings_error_text(e: SettingsError) -> Seq<char> {
    match e {
        SettingsError::Io(d) => "settings I/O failed: "@ + d@,
        SettingsError::Json(d) => "settings JSON is invalid: "@ + d@,
    }
}

#[derive(Debug, Clone, Copy, PartialEq, Eq, Structural)]
pub enum ThemeMode {
    System,
    Light,
    Dark,
}

impl Default for ThemeMode {
    fn default() -> (t: Self)
        ensures
            t == ThemeMode::System,
    {
        ThemeMode::System
    }
}

#[derive(Debug, Clone)]
pub struct AppSettings {
    pub theme: ThemeMode,
    pub reduce_motion_follows_system: bool,
    pub recordings_dir: Option<String>,
}

impl Default for AppSettings {
    fn default() -> (s: Self)
        ensures
            s.theme == ThemeMode::System,
            s.reduce_motion_follows_system,
            s.recordings_dir is None,
    {
        AppSettings {
            theme: ThemeMode::System,
            reduce_motion_follows_system: true,
            recordings_dir: None,
        }
    }
}

/// Frame rates a recording can use.
pub open spec fn is_supported_fps(fps: u32) -> bool {
    fps == 30 || fps == 60
}

/// Countdown lengths, in seconds, the countdown overlay offers.
pub open spec fn is_supported_countdown(seconds: u32) -> bool {
    seconds == 0 || seconds == 3 || seconds == 5 || seconds == 10
}

#[derive(Debug, Clone)]
pub struct RecordingPreferences {
    pub microphone_id: Option<String>,
    pub system_audio: bool,
    pub camera_id: Option<String>,
    pub fps: u32,
}

impl Default for RecordingPreferences {
    fn default() -> (p: Self)
        ensures
            p.microphone_id is None,
            p.system_audio,
            p.camera_id is None,
            p.fps == 60,
    {
        RecordingPreferences { microphone_id: None, system_audio: true, camera_id: None, fps: 60 }
    }
}

impl RecordingPreferences {
    /// The same preferences with an unsupported frame rate replaced by 60.
    pub fn normalized(self) -> (p: Self)
        ensures
            p.fps == (if is_supported_fps(self.fps) { self.fps } else { 60 }),
            p.microphone_id == self.microphone_id,
            p.system_audio == self.system_audio,
            p.camera_id == self.camera_id,
    {
        let mut p = self;
        if p.fps != 30 && p.fps != 60 {
            p.fps = 60;
        }
        p
    }
}

#[derive(Debug, Clone, Copy, PartialEq, Eq, Structural)]
pub struct CountdownSettings {
    pub seconds: u32,
}

impl Default for CountdownSettings {
    fn default() -> (c: Self)
        ensures
            c.seconds == 3,
    {
        CountdownSettings { seconds: 3 }
    }
}

impl CountdownSettings {
    /// The same setting with an unsupported length replaced by 3 seconds.
    pub fn normalized(self) -> (c: Self)
        ensures
            c.seconds == (if is_supported_countdown(self.seconds) { self.seconds } else { 3 }),
    {
        let mut c = self;
        if c.seconds != 0 && c.seconds != 3 && c.seconds != 5 && c.seconds != 10 {
            c.seconds = 3;
        }
        c
    }
}

#[derive(Debug, Clone, Copy, PartialEq, Eq, Structural)]
pub struct HudOverlaySettings {
    pub visible: bool,
    pub click_effects: bool,
}

impl Default for HudOverlaySettings {
    fn default() -> (h: Self)
        ensures
            h.visible,
            !h.click_effects,
    {
        HudOverlaySettings { visible: true, click_effects: false }
    }
}

#[derive(Debug, Clone, Copy, PartialEq, Eq, Structural)]
pub enum ShortcutProfile {
    CtrlShift,
    CtrlAlt,
}

impl Default for ShortcutProfile {
    fn default() -> (p: Self)
        ensures
            p == ShortcutProfile::CtrlShift,
    {
        ShortcutProfile::CtrlShift
    }
}

#[derive(Debug, Clone)]
pub struct AllSettings {
    pub app: AppSettings,
    pub recording: RecordingPreferences,
    pub countdown: CountdownSettings,
    pub hud_overlay: HudOverlaySettings,
    pub shortcuts: ShortcutProfile,
}

impl Default for AllSettings {
    fn default() -> (s: Self)
        ensures
            s.app.theme == ThemeMode::System,
            s.app.reduce_motion_follows_system,
            s.app.recordings_dir is None,
            s.recording.microphone_id is None,
            s.recording.system_audio,
            s.recording.camera_id is None,
            s.recording.fps == 60,
            s.countdown.seconds == 3,
            s.hud_overlay.visible,
            !s.hud_overlay.click_effects,
            s.shortcuts == ShortcutProfile::CtrlShift,
    {
        AllSettings {
            app: AppSettings::default(),
            recording: RecordingPreferences::default(),
            countdown: CountdownSettings::default(),
            hud_overlay: HudOverlaySettings::default(),
            shortcuts: ShortcutProfile::default(),
        }
    }
}

impl AllSettings {
    /// The settings as they are stored: recording preferences and countdown
    /// normalised, everything else unchanged.
    pub fn normalized(self) -> (s: Self)
        ensures
            s.recording.fps == (if is_supported_fps(self.recording.fps) {
                self.recording.fps
            } else {
                60
            }),
            s.recording.microphone_id == self.recording.microphone_id,
            s.recording.system_audio == self.recording.system_audio,
            s.recording.camera_id == self.recording.camera_id,
            s.countdown.seconds == (if is_supported_countdown(self.countdown.seconds) {
                self.countdown.seconds
            } else {
                3
            }),
            s.app == self.app,
            s.hud_overlay == self.hud_overlay,
            s.shortcuts == self.shortcuts,
    {
        AllSettings {
            recording: self.recording.normalized(),
            countdown: self.countdown.normalized(),
            app: self.app,
            hud_overlay: self.hud_overlay,
            shortcuts: self.shortcuts,
        }
    }
}

/// Normalising recording preferences a second time changes nothing, and the
/// result always uses a supported frame rate.
pub proof fn lemma_recording_normalization_is_idempotent(fps: u32)
    ensures
        is_supported_fps(if is_supported_fps(fps) { fps } else { 60 }),
        is_supported_fps(fps) ==> (if is_supported_fps(fps) { fps } else { 60 }) == fps,
{
}

/// Normalising a countdown a second time changes nothing, and the result is
/// always one of the offered lengths.
pub proof fn lemma_countdown_normalization_is_idempotent(seconds: u32)
    ensures
        is_supported_countdown(if is_supported_countdown(seconds) { seconds } else { 3 }),
        is_supported_countdown(seconds) ==> (if is_supported_countdown(seconds) {
            seconds
        } else {
            3
        }) == seconds,
{
}

/// A file-backed store for one settings document of type `T`.
pub struct SettingsStore<T> {
    path: String,
    marker: PhantomData<T>,
}

impl<T> SettingsStore<T> {
    /// The path of the stored document.
    pub closed spec fn location(&self) -> Seq<char> {
        self.path@
    }

    pub fn new(path: String) -> (s: Self)
        ensures
            s.location() == path@,
    {
        SettingsStore { path, marker: PhantomData }
    }

    pub fn path(&self) -> (p: &str)
        ensures
            p@ == self.location(),
    {
        self.path.as_str()
    }
}

/// The path of the settings document `name` inside the app-data folder.
pub fn settings_file(app_data: &str, name: &str) -> (p: String)
    ensures
        p@ == joined(app_data@, name@),
{
    join_path(app_data, name)
}

} // verus!
