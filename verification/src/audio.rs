//! Audio capture decisions: device availability, the errors shown for each
//! source, sample accounting and the bounded write queue of a capture.
//! Talking to the audio devices is left to the host.
use vstd::prelude::*;
use crate::text::{concat, decimal, decimal_string, owned, same_text};

verus! {

#[derive(Debug, Clone)]
pub enum AudioError {
    Unsupported,
    MicrophoneUnavailable(String),
    LoopbackUnavailable(String),
    StartTimeout(String),
    Device(String),
}

pub open spec fn audio_error_text(e: AudioError) -> Seq<char> {
    match e {
        AudioError::Unsupported => "WASAPI is only available on Windows"@,
        AudioError::MicrophoneUnavailable(d) => "microphone unavailable: "@ + d@,
        AudioError::LoopbackUnavailable(d) => "system audio loopback unavailable: "@ + d@,
        AudioError::StartTimeout(d) => "timed out waiting for audio capture to start: "@ + d@,
        AudioError::Device(d) => "audio device failed: "@ + d@,
    }
}

impl AudioError {
    /// The message shown to the user.
    pub fn message(&self) -> (m: String)
        ensures
            m@ == audio_error_text(*self),
    {
        match self {
            AudioError::Unsupported => owned("WASAPI is only available on Windows"),
            AudioError::MicrophoneUnavailable(d) => concat("microphone unavailable: ", d.as_str()),
            AudioError::LoopbackUnavailable(d) => concat(
                "system audio loopback unavailable: ",
                d.as_str(),
            ),
            AudioError::StartTimeout(d) => concat(
                "timed out waiting for audio capture to start: ",
                d.as_str(),
            ),
            AudioError::Device(d) => concat("audio device failed: ", d.as_str()),
        }
    }
}

/// How long a capture may take to signal that it runs, in seconds.
pub const AUDIO_START_TIMEOUT_SECS: u64 = 12;

#[derive(Clone, Copy, Debug, PartialEq, Eq, Structural)]
pub enum AudioSourceKind {
    Microphone,
    SystemLoopback,
}

#[derive(Clone, Debug)]
pub struct AudioDevice {
    pub id: String,
    pub name: String,
    pub kind: AudioSourceKind,
    pub is_default: bool,
}

/// `e` is the unavailability error of a source of `kind` with `message`.
pub open spec fn is_unavailable(e: AudioError, kind: AudioSourceKind, message: Seq<char>) -> bool {
    match kind {
        AudioSourceKind::Microphone => e matches AudioError::MicrophoneUnavailable(m) && m@ == message,
        AudioSourceKind::SystemLoopback => e matches AudioError::LoopbackUnavailable(m) && m@
            == message,
    }
}

/// The unavailability error of a source of `kind`.
pub fn friendly_error(kind: AudioSourceKind, message: String) -> (e: AudioError)
    ensures
        is_unavailable(e, kind, message@),
{
    match kind {
        AudioSourceKind::Microphone => AudioError::MicrophoneUnavailable(message),
        AudioSourceKind::SystemLoopback => AudioError::LoopbackUnavailable(message),
    }
}

/// Some device of `devices` is of `kind` (and, when `wanted` is given, has
/// that id).
pub open spec fn device_listed(devices: Seq<AudioDevice>, kind: AudioSourceKind, wanted: Option<Seq<char>>) -> bool {
    exists|k: int|
        0 <= k < devices.len() && (#[trigger] devices[k]).kind == kind && match wanted {
            Some(w) => devices[k].id@ == w,
            None => true,
        }
}

/// What a missing device is reported as.
pub open spec fn missing_device_text(kind: AudioSourceKind, wanted: Option<Seq<char>>) -> Seq<char> {
    match (kind, wanted) {
        (AudioSourceKind::Microphone, Some(w)) => "microphone '"@ + w
            + "' was unplugged or disabled; reconnect it or pick another microphone"@,
        (AudioSourceKind::Microphone, None) =>
            "no microphone found; reconnect a microphone or turn microphone capture off"@,
        (AudioSourceKind::SystemLoopback, Some(w)) => "system audio device '"@ + w
            + "' was unplugged or disabled; check Windows sound settings or turn system audio off"@,
        (AudioSourceKind::SystemLoopback, None) =>
            "no system-audio output device found; check Windows sound settings or turn system audio off"@,
    }
}

/// Whether the requested device (or, with no id, any device of the kind) is
/// among the enumerated `devices`, with an actionable error when it is not.
pub fn check_device_available(kind: AudioSourceKind, device_id: Option<&str>, devices: &Vec<AudioDevice>) -> (r: Result<(), AudioError>)
    ensures
        device_listed(devices@, kind, match device_id { Some(w) => Some(w@), None => None }) ==> r is Ok,
        !device_listed(devices@, kind, match device_id { Some(w) => Some(w@), None => None }) ==> (r matches Err(e)
            && is_unavailable(e, kind, missing_device_text(kind, match device_id { Some(w) => Some(w@), None => None }))),
{
    let ghost wanted = match device_id { Some(w) => Some(w@), None => None };
    let mut i: usize = 0;
    while i < devices.len()
        invariant
            0 <= i <= devices.len(),
            wanted == (match device_id { Some(w) => Some(w@), None => None::<Seq<char>> }),
            forall|k: int| 0 <= k < i ==> !((#[trigger] devices@[k]).kind == kind && match wanted {
                Some(w) => devices@[k].id@ == w,
                None => true,
            }),
        decreases devices.len() - i,
    {
        let d = &devices[i];
        if d.kind == kind {
            let matches_id = match device_id {
                Some(w) => same_text(d.id.as_str(), w),
                None => true,
            };
            if matches_id {
                return Ok(());
            }
        }
        i += 1;
    }
    let message = match (kind, device_id) {
        (AudioSourceKind::Microphone, Some(w)) => {
            let mut m = concat("microphone '", w);
            m.append("' was unplugged or disabled; reconnect it or pick another microphone");
            m
        },
        (AudioSourceKind::Microphone, None) => owned(
            "no microphone found; reconnect a microphone or turn microphone capture off",
        ),
        (AudioSourceKind::SystemLoopback, Some(w)) => {
            let mut m = concat("system audio device '", w);
            m.append(
                "' was unplugged or disabled; check Windows sound settings or turn system audio off",
            );
            m
        },
        (AudioSourceKind::SystemLoopback, None) => owned(
            "no system-audio output device found; check Windows sound settings or turn system audio off",
        ),
    };
    Err(friendly_error(kind, message))
}

/// The name of a source of `kind` in messages.
pub open spec fn source_label(kind: AudioSourceKind) -> Seq<char> {
    match kind {
        AudioSourceKind::Microphone => "microphone"@,
        AudioSourceKind::SystemLoopback => "system audio"@,
    }
}

/// The error of a capture that did not signal readiness in time.
pub fn start_timeout_error(kind: AudioSourceKind) -> (e: AudioError)
    ensures
        e matches AudioError::StartTimeout(m) && m@ == source_label(kind)
            + " capture did not start within "@ + decimal(AUDIO_START_TIMEOUT_SECS as nat)
            + "s; the device may be in use by another app"@,
{
    let mut m = match kind {
        AudioSourceKind::Microphone => owned("microphone"),
        AudioSourceKind::SystemLoopback => owned("system audio"),
    };
    m.append(" capture did not start within ");
    let d = decimal_string(AUDIO_START_TIMEOUT_SECS);
    m.append(d.as_str());
    m.append("s; the device may be in use by another app");
    AudioError::StartTimeout(m)
}

/// The error of a device that could not be opened.
pub fn open_failure(kind: AudioSourceKind, device_id: Option<&str>, detail: &str) -> (e: AudioError)
    ensures
        is_unavailable(e, kind, match kind {
            AudioSourceKind::Microphone => "microphone '"@ + (match device_id {
                Some(w) => w@,
                None => "default"@,
            }) + "' could not be opened ("@ + detail@ + "); it may have been unplugged"@,
            AudioSourceKind::SystemLoopback => "system audio loopback could not be opened ("@
                + detail@ + "); check Windows sound settings"@,
        }),
{
    let m = match kind {
        AudioSourceKind::Microphone => {
            let mut m = owned("microphone '");
            match device_id {
                Some(w) => m.append(w),
                None => m.append("default"),
            }
            m.append("' could not be opened (");
            m.append(detail);
            m.append("); it may have been unplugged");
            m
        },
        AudioSourceKind::SystemLoopback => {
            let mut m = owned("system audio loopback could not be opened (");
            m.append(detail);
            m.append("); check Windows sound settings");
            m
        },
    };
    friendly_error(kind, m)
}

/// The error of a device lost while recording.
pub fn disconnect_error(kind: AudioSourceKind, detail: &str) -> (e: AudioError)
    ensures
        is_unavailable(e, kind, match kind {
            AudioSourceKind::Microphone => "microphone disconnected during recording ("@ + detail@
                + "); audio after this point is missing"@,
            AudioSourceKind::SystemLoopback => "system audio device disconnected during recording ("@
                + detail@ + ")"@,
        }),
{
    let m = match kind {
        AudioSourceKind::Microphone => {
            let mut m = concat("microphone disconnected during recording (", detail);
            m.append("); audio after this point is missing");
            m
        },
        AudioSourceKind::SystemLoopback => {
            let mut m = concat("system audio device disconnected during recording (", detail);
            m.append(")");
            m
        },
    };
    friendly_error(kind, m)
}

/// Bytes of one captured frame: two channels of 32-bit float samples.
pub const BYTES_PER_FRAME: usize = 8;

/// The most bytes a capture keeps queued for the disk: ten seconds at 48 kHz.
pub const MAX_QUEUED_BYTES: usize = 3_840_000;

/// How many zero bytes stand in for a silent packet of `pending_frames`
/// frames whose payload was `appended` bytes long: the frames' size, or the
/// payload's when the packet reported no frames.
pub open spec fn silent_fill(pending_frames: u32, appended: usize) -> int {
    let expected = pending_frames as int * BYTES_PER_FRAME as int;
    let capped = if expected > usize::MAX { usize::MAX as int } else { expected };
    if capped > 0 { capped } else { appended as int }
}

pub fn silent_fill_len(pending_frames: u32, appended: usize) -> (n: usize)
    ensures
        n == silent_fill(pending_frames, appended),
{
    let expected: u64 = pending_frames as u64 * BYTES_PER_FRAME as u64;
    let capped: usize = if expected > usize::MAX as u64 { usize::MAX } else { expected as usize };
    if capped > 0 { capped } else { appended }
}

/// How many queued bytes are dropped, oldest first, when `queued` bytes
/// wait for the disk: whole frames covering the excess over
/// `MAX_QUEUED_BYTES`, at least one frame; nothing while within the bound.
pub open spec fn overflow_drop(queued: usize) -> int {
    if queued <= MAX_QUEUED_BYTES {
        0
    } else {
        let over = queued - MAX_QUEUED_BYTES;
        let frames = (over + BYTES_PER_FRAME - 1) / BYTES_PER_FRAME as int;
        (if frames < 1 { 1 } else { frames }) * BYTES_PER_FRAME as int
    }
}

pub fn overflow_drop_len(queued: usize) -> (n: usize)
    ensures
        n == overflow_drop(queued),
        n <= queued,
        queued > MAX_QUEUED_BYTES ==> queued - n <= MAX_QUEUED_BYTES,
{
    if queued <= MAX_QUEUED_BYTES {
        return 0;
    }
    let over = queued - MAX_QUEUED_BYTES;
    let frames = over / BYTES_PER_FRAME + if over % BYTES_PER_FRAME == 0 { 0 } else { 1 };
    assert(frames == (over + BYTES_PER_FRAME - 1) / BYTES_PER_FRAME as int);
    let frames = if frames < 1 { 1 } else { frames };
    assert(frames * 8 <= over + 7);
    frames * BYTES_PER_FRAME
}

/// The time `frames` frames take at `rate` Hz, in microseconds (zero for a
/// zero rate, saturated at `i64::MAX`).
pub open spec fn expected_micros(frames: u64, rate: u32) -> int {
    if rate == 0 {
        0
    } else {
        let e = frames as int * 1_000_000 / rate as int;
        if e > i64::MAX { i64::MAX as int } else { e }
    }
}

/// Expected and observed duration of an audio capture, and how far the
/// observed one is ahead (saturating).
pub fn audio_drift_micros(frames: u64, rate: u32, observed_micros: i64) -> (r: (i64, i64))
    ensures
        r.0 == expected_micros(frames, rate),
        r.1 == crate::session::saturating_diff(observed_micros, r.0),
{
    let expected: i64 = if rate == 0 {
        0
    } else {
        let e: u128 = frames as u128 * 1_000_000 / rate as u128;
        if e > i64::MAX as u128 { i64::MAX } else { e as i64 }
    };
    (expected, crate::session::saturating_sub_i64(observed_micros, expected))
}

} // verus!
