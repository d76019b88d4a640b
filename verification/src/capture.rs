//! Capture sources, the shared recording clock origin, and the crash-recovery
//! manifest that records every media segment of a session.
use vstd::prelude::*;
use crate::ids::{is_v4_uuid, new_id, now_micros};
use crate::text::{chars_of, concat, decimal, decimal_string, owned, push_char, same_text,
    string_from_range};

verus! {

pub const RECOVERY_SCHEMA_VERSION: u32 = 1;

/// Minimum size of a video or audio segment that counts as playable.
pub const MIN_VALID_MEDIA_SEGMENT_BYTES: u64 = 1024;

/// Upper bound of retained diagnostics events per sidecar.
pub const MAX_DIAGNOSTICS_EVENTS: usize = 200;

/// Retained process output is cut to its last this many characters.
pub const MAX_DIAGNOSTICS_TEXT_CHARS: usize = 12_000;

#[derive(Debug, Clone)]
pub enum CaptureError {
    SourceUnavailable(String),
    Unsupported(String),
    InvalidConfig(String),
    Io(String),
    Json(String),
    Native(String),
}

/// A rectangle in physical screen pixels.
#[derive(Clone, Copy, Debug, PartialEq, Eq, Structural)]
pub struct RectI32 {
    pub left: i32,
    pub top: i32,
    pub width: i32,
    pub height: i32,
}

/// `v` clamped into the `i32` range.
pub open spec fn clamp_i32(v: int) -> int {
    if v < i32::MIN {
        i32::MIN as int
    } else if v > i32::MAX {
        i32::MAX as int
    } else {
        v
    }
}

/// The rectangle with the given edges; an extent that does not fit `i32`
/// saturates instead of overflowing.
pub fn rect(left: i32, top: i32, right: i32, bottom: i32) -> (r: RectI32)
    ensures
        r.left == left,
        r.top == top,
        r.width == clamp_i32(right - left),
        r.height == clamp_i32(bottom - top),
{
    let w: i64 = right as i64 - left as i64;
    let h: i64 = bottom as i64 - top as i64;
    let width: i32 = if w < i32::MIN as i64 {
        i32::MIN
    } else if w > i32::MAX as i64 {
        i32::MAX
    } else {
        w as i32
    };
    let height: i32 = if h < i32::MIN as i64 {
        i32::MIN
    } else if h > i32::MAX as i64 {
        i32::MAX
    } else {
        h as i32
    };
    RectI32 { left, top, width, height }
}

/// A DPI reading of 0 (a dead handle) falls back to `fallback`, itself never
/// below 96.
pub fn effective_dpi(raw: u32, fallback: u32) -> (d: u32)
    ensures
        d == (if raw == 0 {
            if fallback < 96 {
                96
            } else {
                fallback
            }
        } else {
            raw
        }),
{
    if raw == 0 {
        if fallback < 96 {
            96
        } else {
            fallback
        }
    } else {
        raw
    }
}

#[derive(Clone, Copy, Debug, PartialEq, Eq, Structural)]
pub enum CaptureSourceKind {
    Display,
    Window,
}

#[derive(Clone, Copy, Debug, PartialEq, Eq, Structural)]
pub enum SourceAvailability {
    Available,
    Minimized,
    Closed,
    Protected,
    Invalid,
}

#[derive(Clone, Debug)]
pub struct CaptureSource {
    pub id: String,
    pub kind: CaptureSourceKind,
    pub title: String,
    pub process_name: Option<String>,
    pub bounds: RectI32,
    pub dpi: u32,
    pub availability: SourceAvailability,
    pub thumbnail_data_url: Option<String>,
}

/// How available a top-level window is: a dead handle is closed, an iconic
/// one minimized, one without area invalid, and otherwise it is available when
/// the capture API accepts it.
pub fn window_availability(is_window: bool, is_iconic: bool, bounds: RectI32, capturable: bool) -> (a:
    SourceAvailability)
    ensures
        a == (if !is_window {
            SourceAvailability::Closed
        } else if is_iconic {
            SourceAvailability::Minimized
        } else if bounds.width <= 0 || bounds.height <= 0 {
            SourceAvailability::Invalid
        } else if capturable {
            SourceAvailability::Available
        } else {
            SourceAvailability::Invalid
        }),
{
    if !is_window {
        SourceAvailability::Closed
    } else if is_iconic {
        SourceAvailability::Minimized
    } else if bounds.width <= 0 || bounds.height <= 0 {
        SourceAvailability::Invalid
    } else if capturable {
        SourceAvailability::Available
    } else {
        SourceAvailability::Invalid
    }
}

/// The message a capture preflight gives for an unavailable source.
pub open spec fn unavailable_msg(a: SourceAvailability, title: Seq<char>) -> Seq<char> {
    match a {
        SourceAvailability::Minimized => "selected window '"@ + title
            + "' is minimized; restore it and try again"@,
        SourceAvailability::Closed => "selected window '"@ + title
            + "' was closed before recording started"@,
        SourceAvailability::Protected => "selected window '"@ + title
            + "' is protected and cannot be captured; pick another source"@,
        _ => "selected source '"@ + title + "' is not currently capturable"@,
    }
}

fn wrap_title(prefix: &str, title: &String, suffix: &str) -> (s: String)
    ensures
        s@ == prefix@ + title@ + suffix@,
{
    let mut s = concat(prefix, title.as_str());
    vstd::string::StringExecFns::append(&mut s, suffix);
    s
}

/// Preflight for a capture source: the first enumerated source with ID
/// `source_id` when it is available, else an actionable error.
pub fn validate_source_for_capture(sources: Vec<CaptureSource>, source_id: &str) -> (r: Result<
    CaptureSource,
    CaptureError,
>)
    ensures
        (forall|i: int| 0 <= i < sources@.len() ==> sources@[i].id@ != source_id@) ==> (r matches Err(
            CaptureError::SourceUnavailable(m),
        ) && m@ == "selected source is no longer available ("@ + source_id@
            + "); pick another display or window"@),
        forall|i: int|
            0 <= i < sources@.len() && sources@[i].id@ == source_id@ && (forall|j: int|
                0 <= j < i ==> sources@[j].id@ != source_id@) ==> {
                let s = #[trigger] sources@[i];
                if s.availability == SourceAvailability::Available {
                    r == Ok::<CaptureSource, CaptureError>(s)
                } else {
                    r matches Err(CaptureError::SourceUnavailable(m)) && m@ == unavailable_msg(
                        s.availability,
                        s.title@,
                    )
                }
            },
{
    let mut i: usize = 0;
    while i < sources.len()
        invariant
            0 <= i <= sources.len(),
            forall|j: int| 0 <= j < i ==> sources@[j].id@ != source_id@,
        decreases sources.len() - i,
    {
        if same_text(sources[i].id.as_str(), source_id) {
            let s = &sources[i];
            return match s.availability {
                SourceAvailability::Available => Ok(copy_source(s)),
                SourceAvailability::Minimized => Err(
                    CaptureError::SourceUnavailable(
                        wrap_title(
                            "selected window '",
                            &s.title,
                            "' is minimized; restore it and try again",
                        ),
                    ),
                ),
                SourceAvailability::Closed => Err(
                    CaptureError::SourceUnavailable(
                        wrap_title(
                            "selected window '",
                            &s.title,
                            "' was closed before recording started",
                        ),
                    ),
                ),
                SourceAvailability::Protected => Err(
                    CaptureError::SourceUnavailable(
                        wrap_title(
                            "selected window '",
                            &s.title,
                            "' is protected and cannot be captured; pick another source",
                        ),
                    ),
                ),
                SourceAvailability::Invalid => Err(
                    CaptureError::SourceUnavailable(
                        wrap_title(
                            "selected source '",
                            &s.title,
                            "' is not currently capturable",
                        ),
                    ),
                ),
            };
        }
        i += 1;
    }
    let mut m = concat("selected source is no longer available (", source_id);
    vstd::string::StringExecFns::append(&mut m, "); pick another display or window");
    Err(CaptureError::SourceUnavailable(m))
}

fn copy_opt_string(s: &Option<String>) -> (r: Option<String>)
    ensures
        r == *s,
{
    match s {
        Some(v) => Some(v.clone()),
        None => None,
    }
}

fn copy_source(s: &CaptureSource) -> (r: CaptureSource)
    ensures
        r == *s,
{
    CaptureSource {
        id: s.id.clone(),
        kind: s.kind,
        title: s.title.clone(),
        process_name: copy_opt_string(&s.process_name),
        bounds: s.bounds,
        dpi: s.dpi,
        availability: s.availability,
        thumbnail_data_url: copy_opt_string(&s.thumbnail_data_url),
    }
}

/// The moment a recording session's clock started: wall time (microseconds
/// since the Unix epoch) and the performance-counter reading and frequency.
#[derive(Clone, Copy, Debug, PartialEq, Eq, Structural)]
pub struct ClockOrigin {
    pub wall_time_utc: i64,
    pub qpc_ticks: i64,
    pub qpc_frequency: i64,
}

/// `a / b` rounded toward zero, for `b > 0`.
pub open spec fn div_toward_zero(a: int, b: int) -> int {
    if a >= 0 {
        a / b
    } else {
        -((-a) / b)
    }
}

impl ClockOrigin {
    /// The origin of a recording starting now: the wall clock, and a
    /// nanosecond counter that starts at zero (no performance counter is
    /// read on this platform).
    pub fn now() -> (r: Result<Self, CaptureError>)
        ensures
            r matches Ok(o) && o.qpc_ticks == 0 && o.qpc_frequency == 1_000_000_000,
    {
        Ok(ClockOrigin { wall_time_utc: now_micros(), qpc_ticks: 0, qpc_frequency: 1_000_000_000 })
    }

    /// Microseconds from the origin to the counter reading `ticks`, rounded
    /// toward zero. Fails on a non-positive frequency, and when the tick
    /// distance in microsecond units does not fit an `i64`.
    pub fn ticks_to_micros(&self, ticks: i64) -> (r: Result<i64, CaptureError>)
        ensures
            self.qpc_frequency <= 0 ==> (r matches Err(CaptureError::InvalidConfig(m))
                && m@ == "QPC frequency must be positive"@),
            self.qpc_frequency > 0 ==> {
                let scaled = (ticks - self.qpc_ticks) * 1_000_000;
                if i64::MIN <= scaled <= i64::MAX {
                    r == Ok::<i64, CaptureError>(
                        div_toward_zero(scaled, self.qpc_frequency as int) as i64,
                    )
                } else {
                    r matches Err(CaptureError::InvalidConfig(m)) && m@ == "timestamp overflow"@
                }
            },
    {
        if self.qpc_frequency <= 0 {
            return Err(CaptureError::InvalidConfig(owned("QPC frequency must be positive")));
        }
        let delta: i128 = ticks as i128 - self.qpc_ticks as i128;
        let scaled: i128 = delta * 1_000_000;
        if scaled < i64::MIN as i128 || scaled > i64::MAX as i128 {
            return Err(CaptureError::InvalidConfig(owned("timestamp overflow")));
        }
        let s: i64 = scaled as i64;
        let f: i64 = self.qpc_frequency;
        let q: i64 = if s >= 0 {
            s / f
        } else {
            let pos: i128 = -(s as i128);
            let qq: i128 = pos / (f as i128);
            -(qq as i64)
        };
        Ok(q)
    }
}

#[derive(Clone, Copy, Debug, PartialEq, Eq, Structural)]
pub enum SegmentKind {
    Screen,
    Microphone,
    SystemAudio,
    Camera,
    Cursor,
    Clicks,
}

/// One media or telemetry segment of a recording session.
#[derive(Clone, Debug)]
pub struct RecoverySegment {
    pub id: u128,
    pub kind: SegmentKind,
    pub relative_path: String,
    pub start_micros: i64,
    pub duration_micros: Option<i64>,
    pub finalized: bool,
}

impl RecoverySegment {
    /// An exact copy.
    pub fn duplicate(&self) -> (r: Self)
        ensures
            r == *self,
    {
        RecoverySegment {
            id: self.id,
            kind: self.kind,
            relative_path: self.relative_path.clone(),
            start_micros: self.start_micros,
            duration_micros: self.duration_micros,
            finalized: self.finalized,
        }
    }
}

/// The incrementally committed record of a recording session.
#[derive(Clone, Debug)]
pub struct RecoveryManifest {
    pub schema_version: u32,
    pub session_id: u128,
    pub project_id: u128,
    pub clock: ClockOrigin,
    pub active: bool,
    pub segments: Vec<RecoverySegment>,
    pub events: Vec<String>,
}

/// Minimum file size for a segment of `kind` to count as playable: media
/// tracks need a real payload, while a single telemetry line already counts.
pub open spec fn min_bytes(kind: SegmentKind) -> u64 {
    match kind {
        SegmentKind::Cursor | SegmentKind::Clicks => 1,
        _ => MIN_VALID_MEDIA_SEGMENT_BYTES,
    }
}

pub fn min_bytes_for_segment_kind(kind: SegmentKind) -> (n: u64)
    ensures
        n == min_bytes(kind),
{
    match kind {
        SegmentKind::Screen | SegmentKind::Microphone | SegmentKind::SystemAudio
        | SegmentKind::Camera => MIN_VALID_MEDIA_SEGMENT_BYTES,
        SegmentKind::Cursor | SegmentKind::Clicks => 1,
    }
}

/// `c` separates path components.
pub open spec fn is_sep(c: char) -> bool {
    c == '/' || c == '\\'
}

/// Scans `s[0..i]` component by component, where `..` steps up and `.` stays:
/// the depth reached after the completed components (`None` once a `..` would
/// climb above the start) and where the current component begins.
pub open spec fn scan(s: Seq<char>, i: int) -> (Option<int>, int)
    decreases i,
{
    if i <= 0 {
        (Some(0), 0)
    } else {
        let (d, st) = scan(s, i - 1);
        if is_sep(s[i - 1]) {
            (
                match d {
                    None => None,
                    Some(x) => step_depth(x, s.subrange(st, i - 1)),
                },
                i,
            )
        } else {
            (d, st)
        }
    }
}

/// The depth at the end of `s`, `None` if the walk ever climbs above the start.
pub open spec fn walk_depth(s: Seq<char>) -> Option<int> {
    let (d, st) = scan(s, s.len() as int);
    match d {
        None => None,
        Some(x) => step_depth(x, s.subrange(st, s.len() as int)),
    }
}

/// The depth after one component.
pub open spec fn step_depth(d: int, comp: Seq<char>) -> Option<int> {
    if comp.len() == 0 || comp == seq!['.'] {
        Some(d)
    } else if comp == seq!['.', '.'] {
        if d - 1 < 0 {
            None
        } else {
            Some(d - 1)
        }
    } else {
        Some(d + 1)
    }
}

/// `c` is an ASCII letter.
pub open spec fn is_ascii_letter(c: char) -> bool {
    ('a' <= c <= 'z') || ('A' <= c <= 'Z')
}

/// `s` begins with a drive prefix such as `C:`.
pub open spec fn has_drive_prefix(s: Seq<char>) -> bool {
    s.len() >= 2 && is_ascii_letter(s[0]) && s[1] == ':'
}

/// A segment path that replay may probe: relative (no root, no leading
/// separator, which is also how UNC and device prefixes begin, and no drive
/// prefix), and never climbing out of the project root, ending at least one
/// folder or file below it.
pub open spec fn is_safe_segment_path(s: Seq<char>) -> bool {
    &&& s.len() > 0
    &&& !is_sep(s[0])
    &&& !has_drive_prefix(s)
    &&& walk_depth(s) matches Some(d) && d > 0
}

/// Once the scan has escaped, it stays escaped.
proof fn lemma_escape_stays(s: Seq<char>, i: int, j: int)
    requires
        0 <= i <= j <= s.len(),
        scan(s, i).0 is None,
    ensures
        scan(s, j).0 is None,
    decreases j - i,
{
    if j > i {
        lemma_escape_stays(s, i, j - 1);
    }
}

fn component_step(s: &Vec<char>, a: usize, b: usize, d: usize) -> (r: Option<usize>)
    requires
        a <= b <= s.len(),
        d <= a,
    ensures
        r == (match step_depth(d as int, s@.subrange(a as int, b as int)) {
            Some(x) => Some(x as usize),
            None => None,
        }),
        r matches Some(x) ==> x <= b,
{
    let len = b - a;
    let ghost comp = s@.subrange(a as int, b as int);
    if len == 0 {
        assert(comp.len() == 0);
        return Some(d);
    }
    if len == 1 && s[a] == '.' {
        assert(comp =~= seq!['.']);
        return Some(d);
    }
    if len == 2 && s[a] == '.' && s[a + 1] == '.' {
        assert(comp =~= seq!['.', '.']);
        if d == 0 {
            return None;
        }
        return Some(d - 1);
    }
    proof {
        if comp == seq!['.'] {
            assert(comp[0] == '.');
        }
        if comp == seq!['.', '.'] {
            assert(comp[0] == '.' && comp[1] == '.');
        }
    }
    Some(d + 1)
}

/// Whether a recovery segment path stays inside the project root.
pub fn is_safe_relative_segment_path(path: &str) -> (ok: bool)
    ensures
        ok == is_safe_segment_path(path@),
{
    let s = chars_of(path);
    let n = s.len();
    if n == 0 {
        return false;
    }
    if s[0] == '/' || s[0] == '\\' {
        return false;
    }
    if n >= 2 && (('a' <= s[0] && s[0] <= 'z') || ('A' <= s[0] && s[0] <= 'Z')) && s[1] == ':' {
        return false;
    }
    let mut depth: usize = 0;
    let mut start: usize = 0;
    let mut i: usize = 0;
    while i < n
        invariant
            s@ == path@,
            n == s.len(),
            0 <= start <= i <= n,
            depth <= start,
            scan(s@, i as int) == (Some(depth as int), start as int),
        decreases n - i,
    {
        if s[i] == '/' || s[i] == '\\' {
            let step = component_step(&s, start, i, depth);
            match step {
                None => {
                    proof {
                        assert(scan(s@, i + 1).0 is None);
                        lemma_escape_stays(s@, i + 1, n as int);
                    }
                    return false;
                },
                Some(d) => {
                    depth = d;
                },
            }
            start = i + 1;
        }
        i += 1;
    }
    let last = component_step(&s, start, n, depth);
    match last {
        None => false,
        Some(d) => d > 0,
    }
}

} // verus!

verus! {

/// Base H.264 bitrate for a capture of `pixels` pixels: 45 Mbps from 4K up,
/// 28 Mbps from QHD up, 18 Mbps below.
pub open spec fn base_bitrate(pixels: int) -> int {
    if pixels >= 3840 * 2160 {
        45_000_000
    } else if pixels >= 2560 * 1440 {
        28_000_000
    } else {
        18_000_000
    }
}

/// The default bitrate: the tier of the capture size (each side counted as
/// at least one pixel), raised by 35% at 60 fps and above.
pub open spec fn default_bitrate(width: u32, height: u32, fps: u32) -> int {
    let w: int = if width == 0 { 1 } else { width as int };
    let h: int = if height == 0 { 1 } else { height as int };
    let base = base_bitrate(w * h);
    if fps >= 60 {
        base * 135 / 100
    } else {
        base
    }
}

/// Default H.264 bitrate for a capture size and frame rate, so that a
/// configuration without a bitrate still gives a playable file.
pub fn default_video_bitrate(width: u32, height: u32, fps: u32) -> (b: u32)
    ensures
        b == default_bitrate(width, height, fps),
        1_000_000 <= b <= 120_000_000,
{
    let w: u64 = if width == 0 { 1 } else { width as u64 };
    let h: u64 = if height == 0 { 1 } else { height as u64 };
    assert(w * h <= 0xffff_ffff * 0xffff_ffffu64) by (nonlinear_arith)
        requires
            1 <= w <= 0xffff_ffff,
            1 <= h <= 0xffff_ffff,
    ;
    let pixels: u64 = w * h;
    let base: u32 = if pixels >= 3840 * 2160 {
        45_000_000
    } else if pixels >= 2560 * 1440 {
        28_000_000
    } else {
        18_000_000
    };
    if fps >= 60 {
        base / 100 * 135
    } else {
        base
    }
}

/// The effective encoder bitrate: the configured one, or the default for
/// the capture size when none (zero) was configured.
pub fn effective_bitrate(configured: u32, width: u32, height: u32, fps: u32) -> (b: u32)
    ensures
        b == (if configured == 0 { default_bitrate(width, height, fps) } else { configured as int }),
{
    if configured == 0 {
        default_video_bitrate(width, height, fps)
    } else {
        configured
    }
}

/// Where the diagnostics log of a video segment lives: its extension
/// replaced, so `screen-0001.mp4` gets `screen-0001.recording-diagnostics.json`.
pub fn diagnostics_sidecar_path(video_path: &str) -> (p: String)
    ensures
        p@ == crate::paths::with_extension(video_path@, "recording-diagnostics.json"@),
{
    crate::paths::replace_extension(video_path, "recording-diagnostics.json")
}

/// Where the timing metadata of an audio segment lives: `.json` appended to
/// the audio file's own name.
pub fn audio_timing_sidecar_path(audio_path: &str) -> (p: String)
    ensures
        p@ == audio_path@ + ".json"@,
{
    crate::paths::append_suffix(audio_path, ".json")
}

/// The text retained for a diagnostics value: unchanged when it has at most
/// `max_chars` characters, otherwise its last `max_chars` characters and a
/// line saying so.
pub open spec fn truncated_text(text: Seq<char>, max_chars: nat) -> Seq<char> {
    if text.len() <= max_chars {
        text
    } else {
        text.subrange(text.len() - max_chars, text.len() as int) + "\n[truncated to last "@
            + decimal(max_chars) + " chars]"@
    }
}

pub fn truncate_diagnostics_text(text: &str, max_chars: usize) -> (out: String)
    ensures
        out@ == truncated_text(text@, max_chars as nat),
{
    let chars = chars_of(text);
    if chars.len() <= max_chars {
        return owned(text);
    }
    let mut out = string_from_range(&chars, chars.len() - max_chars, chars.len());
    out.append("\n[truncated to last ");
    let digits = decimal_string(max_chars as u64);
    out.append(digits.as_str());
    out.append(" chars]");
    out
}

/// Start-delay metadata written beside an audio segment.
#[derive(Clone, Copy, Debug, PartialEq, Eq, Structural)]
pub struct AudioTimingMetadata {
    pub start_delay_ms: Option<i64>,
}

/// One line of a telemetry log.
#[derive(Debug)]
pub struct TelemetryRecord<T> {
    pub schema_version: u32,
    pub timestamp_micros: i64,
    pub payload: T,
}

/// A strict replay of a telemetry log at `path`: the records read, when no
/// line was corrupt; otherwise an error that counts the `skipped` lines.
pub fn strict_replay<T>(records: Vec<TelemetryRecord<T>>, skipped: usize, path: &str) -> (r: Result<
    Vec<TelemetryRecord<T>>,
    CaptureError,
>)
    ensures
        skipped == 0 ==> r == Ok::<Vec<TelemetryRecord<T>>, CaptureError>(records),
        skipped > 0 ==> (r matches Err(CaptureError::InvalidConfig(m)) && m@ == "telemetry file has "@
            + decimal(skipped as nat) + " corrupt line(s): "@ + path@),
{
    if skipped > 0 {
        let count = decimal_string(skipped as u64);
        let mut m = concat("telemetry file has ", count.as_str());
        m.append(" corrupt line(s): ");
        m.append(path);
        return Err(CaptureError::InvalidConfig(m));
    }
    Ok(records)
}

impl RecoveryManifest {
    /// A fresh, active manifest for a new session of `project_id`, with no
    /// segments or events yet.
    pub fn new(project_id: u128, clock: ClockOrigin) -> (m: Self)
        ensures
            m.schema_version == RECOVERY_SCHEMA_VERSION,
            is_v4_uuid(m.session_id),
            m.project_id == project_id,
            m.clock == clock,
            m.active,
            m.segments@.len() == 0,
            m.events@.len() == 0,
    {
        RecoveryManifest {
            schema_version: RECOVERY_SCHEMA_VERSION,
            session_id: new_id(),
            project_id,
            clock,
            active: true,
            segments: Vec::new(),
            events: Vec::new(),
        }
    }

    /// Accepts a replayed manifest only when it has the schema this version
    /// writes.
    pub fn check_schema(self) -> (r: Result<Self, CaptureError>)
        ensures
            self.schema_version == RECOVERY_SCHEMA_VERSION ==> r == Ok::<Self, CaptureError>(self),
            self.schema_version != RECOVERY_SCHEMA_VERSION ==> (r matches Err(
                CaptureError::InvalidConfig(m),
            ) && m@ == "unsupported recovery manifest"@),
    {
        if self.schema_version != RECOVERY_SCHEMA_VERSION {
            return Err(CaptureError::InvalidConfig(owned("unsupported recovery manifest")));
        }
        Ok(self)
    }
}

/// Whether replay may look at the file of `segment` at all: only finalized
/// segments whose path stays inside the project are probed.
pub open spec fn probe_allowed(segment: RecoverySegment) -> bool {
    segment.finalized && is_safe_segment_path(segment.relative_path@)
}

/// Whether a segment is playable given what was found at its path: a
/// regular file (`Some` of its size) at least as large as its kind needs.
pub open spec fn is_playable(segment: RecoverySegment, found: Option<u64>) -> bool {
    &&& probe_allowed(segment)
    &&& found matches Some(size) && size >= min_bytes(segment.kind)
}

/// The playable segments of `segments`, in order, where `found[i]` is what
/// was found at the path of `segments[i]`.
pub open spec fn playable(segments: Seq<RecoverySegment>, found: Seq<Option<u64>>) -> Seq<
    RecoverySegment,
>
    decreases segments.len(),
{
    if segments.len() == 0 {
        seq![]
    } else {
        let rest = playable(segments.drop_last(), found.take(segments.len() - 1));
        if is_playable(segments.last(), found[segments.len() - 1]) {
            rest.push(segments.last())
        } else {
            rest
        }
    }
}

pub fn should_probe(segment: &RecoverySegment) -> (b: bool)
    ensures
        b == probe_allowed(*segment),
{
    segment.finalized && is_safe_relative_segment_path(segment.relative_path.as_str())
}

impl RecoveryManifest {
    /// The finalized segments whose files exist inside the project and are
    /// large enough to play, in manifest order. `found[i]` is the size of
    /// the regular file at the path of segment `i` (`None` when there is
    /// none, or when `should_probe` said not to look).
    pub fn playable_segments(&self, found: &Vec<Option<u64>>) -> (r: Vec<RecoverySegment>)
        requires
            found.len() == self.segments.len(),
        ensures
            r@ == playable(self.segments@, found@),
    {
        let mut out: Vec<RecoverySegment> = Vec::new();
        let mut i: usize = 0;
        while i < self.segments.len()
            invariant
                found.len() == self.segments.len(),
                0 <= i <= self.segments.len(),
                out@ == playable(self.segments@.take(i as int), found@.take(i as int)),
            decreases self.segments.len() - i,
        {
            let seg = &self.segments[i];
            let keep = match found[i] {
                Some(size) => should_probe(seg) && size >= min_bytes_for_segment_kind(seg.kind),
                None => false,
            };
            proof {
                let s1 = self.segments@.take(i + 1);
                let f1 = found@.take(i + 1);
                assert(s1.drop_last() =~= self.segments@.take(i as int));
                assert(f1.take(i as int) =~= found@.take(i as int));
                assert(s1.last() == self.segments@[i as int]);
                assert(f1[i as int] == found@[i as int]);
            }
            if keep {
                out.push(seg.duplicate());
            }
            i += 1;
        }
        assert(self.segments@.take(self.segments.len() as int) =~= self.segments@);
        assert(found@.take(found.len() as int) =~= found@);
        out
    }
}

} // verus!

verus! {

pub open spec fn capture_error_text(e: CaptureError) -> Seq<char> {
    match e {
        CaptureError::SourceUnavailable(d) => "capture source is unavailable: "@ + d@,
        CaptureError::Unsupported(d) => "capture is not supported: "@ + d@,
        CaptureError::InvalidConfig(d) => "invalid capture configuration: "@ + d@,
        CaptureError::Io(d) => "capture I/O failed: "@ + d@,
        CaptureError::Json(d) => "capture serialization failed: "@ + d@,
        CaptureError::Native(d) => "native capture failed: "@ + d@,
    }
}

impl CaptureError {
    /// The message shown to the user.
    pub fn message(&self) -> (m: String)
        ensures
            m@ == capture_error_text(*self),
    {
        match self {
            CaptureError::SourceUnavailable(d) => concat("capture source is unavailable: ", d.as_str()),
            CaptureError::Unsupported(d) => concat("capture is not supported: ", d.as_str()),
            CaptureError::InvalidConfig(d) => concat("invalid capture configuration: ", d.as_str()),
            CaptureError::Io(d) => concat("capture I/O failed: ", d.as_str()),
            CaptureError::Json(d) => concat("capture serialization failed: ", d.as_str()),
            CaptureError::Native(d) => concat("native capture failed: ", d.as_str()),
        }
    }
}

} // verus!

verus! {

/// A file was found and holds at least `MIN_VALID_MEDIA_SEGMENT_BYTES` bytes
/// for a screen, microphone, system-audio or camera recording, or at least
/// one byte for a cursor or click log.
pub open spec fn enough_bytes(kind: SegmentKind, found: Option<u64>) -> bool {
    found matches Some(n) && n >= (if kind == SegmentKind::Screen || kind == SegmentKind::Microphone
        || kind == SegmentKind::SystemAudio || kind == SegmentKind::Camera {
        MIN_VALID_MEDIA_SEGMENT_BYTES
    } else {
        1
    })
}

/// Recovery keeps only what it may and can play: every segment in the
/// playable list is one of the manifest's segments, finalized, with a file
/// found at its path that holds at least `MIN_VALID_MEDIA_SEGMENT_BYTES`
/// bytes for a screen, microphone, system-audio or camera recording and at
/// least one byte for a cursor or click log.
pub proof fn lemma_playable_segments_are_complete(segments: Seq<RecoverySegment>, found: Seq<Option<u64>>)
    requires
        found.len() == segments.len(),
    ensures
        forall|k: int|
            #![trigger playable(segments, found)[k]]
            0 <= k < playable(segments, found).len() ==> exists|i: int|
                0 <= i < segments.len() && #[trigger] segments[i] == playable(segments, found)[k]
                    && segments[i].finalized && enough_bytes(segments[i].kind, found[i]),
    decreases segments.len(),
{
    if segments.len() > 0 {
        let n = segments.len() - 1;
        let s0 = segments.drop_last();
        let f0 = found.take(n as int);
        lemma_playable_segments_are_complete(s0, f0);
        let rest = playable(s0, f0);
        let all = playable(segments, found);
        assert forall|k: int| #![trigger all[k]] 0 <= k < all.len() implies exists|i: int|
            0 <= i < segments.len() && #[trigger] segments[i] == all[k] && segments[i].finalized
                && enough_bytes(segments[i].kind, found[i]) by {
            if k < rest.len() {
                assert(all[k] == rest[k]);
                let i = choose|i: int|
                    0 <= i < s0.len() && #[trigger] s0[i] == rest[k] && s0[i].finalized
                        && enough_bytes(s0[i].kind, f0[i]);
                assert(s0[i] == segments[i]);
                assert(f0[i] == found[i]);
            } else {
                assert(all[k] == segments.last());
                assert(segments[n as int] == segments.last());
                assert(is_playable(segments.last(), found[n as int]));
            }
        }
    }
}

/// Recovery loses nothing it may play: a finalized segment at a safe
/// relative path whose file holds enough bytes for its kind (as
/// `enough_bytes` counts them) is in the playable list.
pub proof fn lemma_complete_segments_are_playable(segments: Seq<RecoverySegment>, found: Seq<Option<u64>>, i: int)
    requires
        found.len() == segments.len(),
        0 <= i < segments.len(),
        segments[i].finalized,
        is_safe_segment_path(segments[i].relative_path@),
        enough_bytes(segments[i].kind, found[i]),
    ensures
        exists|k: int| 0 <= k < playable(segments, found).len() && playable(segments, found)[k] == segments[i],
    decreases segments.len(),
{
    let n = segments.len() - 1;
    let all = playable(segments, found);
    if i == n {
        assert(segments.last() == segments[i]);
        assert(is_playable(segments[i], found[i]));
        assert(all[all.len() - 1] == segments[i]);
    } else {
        let s0 = segments.drop_last();
        let f0 = found.take(n as int);
        assert(s0[i] == segments[i]);
        assert(f0[i] == found[i]);
        lemma_complete_segments_are_playable(s0, f0, i);
        let rest = playable(s0, f0);
        let k = choose|k: int| 0 <= k < rest.len() && rest[k] == s0[i];
        assert(all[k] == rest[k]);
    }
}

} // verus!
