//! The recording session as the desktop host runs it: project folder names,
//! where each segment of a session is written, which segments a session
//! plans, how they are finalised, paused and resumed, and which recovered
//! segments become project sources. Starting and stopping the capture
//! devices is left to the host, which reports back what happened.
use vstd::prelude::*;
use crate::capture::{CaptureSource, RecoveryManifest, RecoverySegment, RectI32, SegmentKind};
use crate::ids::{id_text, instant_text, is_v4_uuid, new_id, rfc3339_of, uuid_text};
use crate::persistence::RecentProject;
use crate::paths::{forward_slashes, join_path, joined, to_forward_slashes};
use crate::project::{
    is_white, FrameRate, ProjectError, ProjectManifest, RecordingSessionMetadata, SourceKind, SourceMedia,
    TimeMicros,
};
use crate::screen::ScreenRecordingConfig;
use crate::settings::SettingsError;
use crate::text::{chars_of, concat, owned, push_char, same_text, zero_padded, zero_padded_string};

verus! {

/// Why a host command failed.
#[derive(Debug, Clone)]
pub enum CommandError {
    Project(ProjectError),
    Persistence(String),
    Settings(SettingsError),
    InvalidPath(String),
    Recording(String),
}

/// What the host asked to record.
#[derive(Debug, Clone)]
pub struct StartRecordingRequest {
    pub project_path: String,
    pub source_id: String,
    pub microphone_id: Option<String>,
    pub system_audio: bool,
    pub camera_id: Option<String>,
    pub fps: u32,
}

// ---------------------------------------------------------------------------
// Project folder names
// ---------------------------------------------------------------------------

/// The number of white-space characters at the start of `s`.
pub open spec fn leading_white(s: Seq<char>) -> nat
    decreases s.len(),
{
    if s.len() > 0 && is_white(s[0]) {
        1 + leading_white(s.skip(1))
    } else {
        0
    }
}

/// The number of white-space characters at the end of `s`.
pub open spec fn trailing_white(s: Seq<char>) -> nat
    decreases s.len(),
{
    if s.len() > 0 && is_white(s.last()) {
        1 + trailing_white(s.drop_last())
    } else {
        0
    }
}

/// `s` without its leading and trailing white space (`str::trim`).
pub open spec fn trimmed(s: Seq<char>) -> Seq<char> {
    let a = leading_white(s);
    if a == s.len() {
        seq![]
    } else {
        s.subrange(a as int, s.len() - trailing_white(s))
    }
}

/// A character that cannot stand in a Windows file name, replaced by `-`.
pub open spec fn is_reserved_name_char(c: char) -> bool {
    c == '\\' || c == '<' || c == '>' || c == ':' || c == '"' || c == '/' || c == '|' || c == '?'
        || c == '*'
}

/// The folder name a project title gives: trimmed, with every reserved
/// character replaced by `-`.
pub open spec fn folder_name(title: Seq<char>) -> Seq<char> {
    trimmed(title).map_values(|c: char| if is_reserved_name_char(c) { '-' } else { c })
}

/// A folder name that names nothing (empty, `.` or `..`).
pub open spec fn is_degenerate_name(n: Seq<char>) -> bool {
    n.len() == 0 || n == seq!['.'] || n == seq!['.', '.']
}

proof fn lemma_leading_white(s: Seq<char>)
    ensures
        leading_white(s) <= s.len(),
        forall|k: int| 0 <= k < leading_white(s) ==> is_white(#[trigger] s[k]),
        leading_white(s) < s.len() ==> !is_white(s[leading_white(s) as int]),
    decreases s.len(),
{
    if s.len() > 0 && is_white(s[0]) {
        lemma_leading_white(s.skip(1));
        assert forall|k: int| 0 <= k < leading_white(s) implies is_white(#[trigger] s[k]) by {
            if k > 0 {
                assert(s[k] == s.skip(1)[k - 1]);
            }
        }
    }
}

proof fn lemma_trailing_white(s: Seq<char>)
    ensures
        trailing_white(s) <= s.len(),
        forall|k: int| s.len() - trailing_white(s) <= k < s.len() ==> is_white(#[trigger] s[k]),
        trailing_white(s) < s.len() ==> !is_white(s[s.len() - trailing_white(s) - 1]),
    decreases s.len(),
{
    if s.len() > 0 && is_white(s.last()) {
        lemma_trailing_white(s.drop_last());
        assert forall|k: int| s.len() - trailing_white(s) <= k < s.len() implies is_white(
            #[trigger] s[k],
        ) by {
            if k < s.len() - 1 {
                assert(s[k] == s.drop_last()[k]);
            }
        }
    }
}

/// `s` without leading and trailing white space.
pub fn trim_text(s: &str) -> (out: Vec<char>)
    ensures
        out@ == trimmed(s@),
{
    let c = chars_of(s);
    proof {
        lemma_leading_white(c@);
        lemma_trailing_white(c@);
    }
    let mut a: usize = 0;
    while a < c.len() && crate::project::is_white_char(c[a])
        invariant
            c@ == s@,
            a <= c.len(),
            a <= leading_white(c@),
            leading_white(c@) <= c.len(),
            forall|k: int| 0 <= k < leading_white(c@) ==> is_white(#[trigger] c@[k]),
            leading_white(c@) < c.len() ==> !is_white(c@[leading_white(c@) as int]),
        decreases c.len() - a,
    {
        a += 1;
    }
    if a == c.len() {
        return Vec::new();
    }
    assert(a == leading_white(c@));
    let mut b: usize = c.len();
    while b > a && crate::project::is_white_char(c[b - 1])
        invariant
            c@ == s@,
            a < c.len(),
            a == leading_white(c@),
            a < b <= c.len(),
            c.len() - b <= trailing_white(c@),
            trailing_white(c@) <= c.len(),
            forall|k: int| c.len() - trailing_white(c@) <= k < c.len() ==> is_white(
                #[trigger] c@[k],
            ),
            trailing_white(c@) < c.len() ==> !is_white(c@[c.len() - trailing_white(c@) - 1]),
            !is_white(c@[a as int]),
        decreases b,
    {
        b -= 1;
    }
    assert(b == c.len() - trailing_white(c@));
    let mut out: Vec<char> = Vec::new();
    let mut i: usize = a;
    while i < b
        invariant
            a <= i <= b <= c.len(),
            out@ == c@.subrange(a as int, i as int),
        decreases b - i,
    {
        out.push(c[i]);
        assert(c@.subrange(a as int, i + 1) == c@.subrange(a as int, i as int).push(c@[i as int]));
        i += 1;
    }
    out
}

/// The folder name for a project titled `title`, refused when it would name
/// nothing.
pub fn safe_project_name(title: &str) -> (r: Result<String, CommandError>)
    ensures
        !is_degenerate_name(folder_name(title@)) ==> (r matches Ok(n) && n@ == folder_name(
            title@,
        )),
        is_degenerate_name(folder_name(title@)) ==> (r matches Err(CommandError::InvalidPath(t))
            && t@ == title@),
{
    let t = trim_text(title);
    let mut name = String::new();
    let mut i: usize = 0;
    let ghost f = |c: char| if is_reserved_name_char(c) { '-' } else { c };
    while i < t.len()
        invariant
            t@ == trimmed(title@),
            0 <= i <= t.len(),
            f == (|c: char| if is_reserved_name_char(c) { '-' } else { c }),
            name@ == t@.take(i as int).map_values(f),
        decreases t.len() - i,
    {
        let c = t[i];
        let d = if c == '\\' || c == '<' || c == '>' || c == ':' || c == '"' || c == '/' || c
            == '|' || c == '?' || c == '*' {
            '-'
        } else {
            c
        };
        push_char(&mut name, d);
        assert(t@.take(i + 1).map_values(f) =~= t@.take(i as int).map_values(f).push(f(c)));
        i += 1;
    }
    assert(t@.take(t.len() as int) =~= t@);
    assert(name@ == folder_name(title@));
    let n = chars_of(name.as_str());
    if n.len() == 0 || (n.len() == 1 && n[0] == '.') || (n.len() == 2 && n[0] == '.' && n[1]
        == '.') {
        proof {
            if n.len() == 1 {
                assert(n@ =~= seq!['.']);
            }
            if n.len() == 2 {
                assert(n@ =~= seq!['.', '.']);
            }
        }
        return Err(CommandError::InvalidPath(owned(title)));
    }
    proof {
        if n@ == seq!['.'] {
            assert(n@.len() == 1 && n@[0] == '.');
        }
        if n@ == seq!['.', '.'] {
            assert(n@.len() == 2 && n@[0] == '.' && n@[1] == '.');
        }
    }
    Ok(name)
}

/// Where a new project titled `title` is created inside `parent`: a folder
/// named after the title with the `.kiri` extension.
pub fn project_root_for(parent: &str, title: &str) -> (r: Result<String, CommandError>)
    ensures
        !is_degenerate_name(folder_name(title@)) ==> (r matches Ok(p) && p@ == joined(
            parent@,
            folder_name(title@) + ".kiri"@,
        )),
        is_degenerate_name(folder_name(title@)) ==> (r matches Err(CommandError::InvalidPath(t))
            && t@ == title@),
{
    let name = safe_project_name(title)?;
    let folder = concat(name.as_str(), ".kiri");
    Ok(join_path(parent, folder.as_str()))
}

// ---------------------------------------------------------------------------
// Segment files
// ---------------------------------------------------------------------------

/// The project-relative file of the segment of `kind` numbered `index`:
/// media files carry the zero-padded segment number, while the cursor and
/// click logs are one file for the whole session.
pub open spec fn segment_file(kind: SegmentKind, index: u32) -> Seq<char> {
    match kind {
        SegmentKind::Screen => "media/screen-"@ + zero_padded(index as nat, 4) + ".mp4"@,
        SegmentKind::Microphone => "media/microphone-"@ + zero_padded(index as nat, 4) + ".wav"@,
        SegmentKind::SystemAudio => "media/system-audio-"@ + zero_padded(index as nat, 4)
            + ".wav"@,
        SegmentKind::Camera => "media/camera-"@ + zero_padded(index as nat, 4) + ".mp4"@,
        SegmentKind::Cursor => "telemetry/cursor.jsonl"@,
        SegmentKind::Clicks => "telemetry/clicks.jsonl"@,
    }
}

pub fn segment_path(kind: SegmentKind, index: u32) -> (p: String)
    ensures
        p@ == segment_file(kind, index),
{
    let (prefix, suffix): (&str, &str) = match kind {
        SegmentKind::Screen => ("media/screen-", ".mp4"),
        SegmentKind::Microphone => ("media/microphone-", ".wav"),
        SegmentKind::SystemAudio => ("media/system-audio-", ".wav"),
        SegmentKind::Camera => ("media/camera-", ".mp4"),
        SegmentKind::Cursor => {
            return owned("telemetry/cursor.jsonl");
        },
        SegmentKind::Clicks => {
            return owned("telemetry/clicks.jsonl");
        },
    };
    let number = zero_padded_string(index as u64, 4);
    let mut p = concat(prefix, number.as_str());
    p.append(suffix);
    p
}

} // verus!

verus! {

// ---------------------------------------------------------------------------
// Planning, finalising and pausing segments
// ---------------------------------------------------------------------------

/// The kinds of segment that segment number `index` of a session records,
/// in the order they are planned: the screen always, the microphone, the
/// system audio and the camera when asked for, and the cursor and click
/// logs once, with the first segment.
pub open spec fn planned_kinds(microphone: bool, system_audio: bool, camera: bool, index: u32) -> Seq<
    SegmentKind,
> {
    seq![SegmentKind::Screen]
        + (if microphone { seq![SegmentKind::Microphone] } else { seq![] })
        + (if system_audio { seq![SegmentKind::SystemAudio] } else { seq![] })
        + (if camera { seq![SegmentKind::Camera] } else { seq![] })
        + (if index == 1 { seq![SegmentKind::Cursor, SegmentKind::Clicks] } else { seq![] })
}

/// A freshly planned, still open segment of `kind` for segment number
/// `index` starting at `start`: telemetry logs always start at zero.
pub open spec fn is_planned_segment(s: RecoverySegment, kind: SegmentKind, index: u32, start: i64) -> bool {
    &&& is_v4_uuid(s.id)
    &&& s.kind == kind
    &&& s.relative_path@ == segment_file(kind, index)
    &&& s.start_micros == (if kind == SegmentKind::Cursor || kind == SegmentKind::Clicks {
        0
    } else {
        start
    })
    &&& s.duration_micros is None
    &&& !s.finalized
}

fn open_segment(kind: SegmentKind, index: u32, start: i64) -> (s: RecoverySegment)
    ensures
        is_planned_segment(s, kind, index, start),
{
    RecoverySegment {
        id: new_id(),
        kind,
        relative_path: segment_path(kind, index),
        start_micros: if matches!(kind, SegmentKind::Cursor | SegmentKind::Clicks) {
            0
        } else {
            start
        },
        duration_micros: None,
        finalized: false,
    }
}

/// The manifest's segments are `old` followed by one planned segment for
/// each kind of `kinds`.
pub open spec fn appended_plan(
    old: Seq<RecoverySegment>,
    new: Seq<RecoverySegment>,
    kinds: Seq<SegmentKind>,
    index: u32,
    start: i64,
) -> bool {
    &&& new.len() == old.len() + kinds.len()
    &&& new.take(old.len() as int) == old
    &&& forall|k: int|
        0 <= k < kinds.len() ==> is_planned_segment(
            #[trigger] new[old.len() + k],
            kinds[k],
            index,
            start,
        )
}

fn push_open_segment(
    segments: &mut Vec<RecoverySegment>,
    kind: SegmentKind,
    index: u32,
    start: i64,
    Ghost(base): Ghost<Seq<RecoverySegment>>,
    Ghost(kinds): Ghost<Seq<SegmentKind>>,
)
    requires
        appended_plan(base, old(segments)@, kinds, index, start),
    ensures
        appended_plan(base, final(segments)@, kinds.push(kind), index, start),
{
    let s = open_segment(kind, index, start);
    segments.push(s);
    assert(final(segments)@.take(base.len() as int) =~= old(segments)@.take(base.len() as int));
    assert forall|k: int| 0 <= k < kinds.push(kind).len() implies is_planned_segment(
        #[trigger] final(segments)@[base.len() + k],
        kinds.push(kind)[k],
        index,
        start,
    ) by {
        if k < kinds.len() {
            assert(final(segments)@[base.len() + k] == old(segments)@[base.len() + k]);
        }
    }
}

impl RecoveryManifest {
    /// Records the segments of segment number `index`, about to start at
    /// `start_micros`, as open segments of the manifest, after the ones it
    /// already has.
    pub fn plan_segment(&mut self, request: &StartRecordingRequest, index: u32, start_micros: i64)
        requires
            old(self).segments@.len() + 6 <= usize::MAX,
        ensures
            appended_plan(
                old(self).segments@,
                final(self).segments@,
                planned_kinds(
                    request.microphone_id is Some,
                    request.system_audio,
                    request.camera_id is Some,
                    index,
                ),
                index,
                start_micros,
            ),
            final(self).schema_version == old(self).schema_version,
            final(self).session_id == old(self).session_id,
            final(self).project_id == old(self).project_id,
            final(self).clock == old(self).clock,
            final(self).active == old(self).active,
            final(self).events == old(self).events,
    {
        let ghost base = self.segments@;
        let ghost mut kinds: Seq<SegmentKind> = seq![];
        assert(self.segments@.take(base.len() as int) =~= base);
        push_open_segment(&mut self.segments, SegmentKind::Screen, index, start_micros, Ghost(base), Ghost(kinds));
        proof { kinds = kinds.push(SegmentKind::Screen); }
        if request.microphone_id.is_some() {
            push_open_segment(&mut self.segments, SegmentKind::Microphone, index, start_micros, Ghost(base), Ghost(kinds));
            proof { kinds = kinds.push(SegmentKind::Microphone); }
        }
        if request.system_audio {
            push_open_segment(&mut self.segments, SegmentKind::SystemAudio, index, start_micros, Ghost(base), Ghost(kinds));
            proof { kinds = kinds.push(SegmentKind::SystemAudio); }
        }
        if request.camera_id.is_some() {
            push_open_segment(&mut self.segments, SegmentKind::Camera, index, start_micros, Ghost(base), Ghost(kinds));
            proof { kinds = kinds.push(SegmentKind::Camera); }
        }
        if index == 1 {
            push_open_segment(&mut self.segments, SegmentKind::Cursor, index, start_micros, Ghost(base), Ghost(kinds));
            proof { kinds = kinds.push(SegmentKind::Cursor); }
            push_open_segment(&mut self.segments, SegmentKind::Clicks, index, start_micros, Ghost(base), Ghost(kinds));
            proof { kinds = kinds.push(SegmentKind::Clicks); }
        }
        assert(kinds =~= planned_kinds(
            request.microphone_id is Some,
            request.system_audio,
            request.camera_id is Some,
            index,
        ));
    }
}

} // verus!

verus! {

/// The position of the newest open segment of `kind` among `segs[..n]`.
pub open spec fn newest_open(segs: Seq<RecoverySegment>, kind: SegmentKind, n: int) -> Option<int>
    decreases n,
{
    if n <= 0 {
        None
    } else if segs[n - 1].kind == kind && !segs[n - 1].finalized {
        Some(n - 1)
    } else {
        newest_open(segs, kind, n - 1)
    }
}

proof fn lemma_newest_open_bounds(segs: Seq<RecoverySegment>, kind: SegmentKind, n: int)
    ensures
        newest_open(segs, kind, n) matches Some(j) ==> 0 <= j < n && segs[j].kind == kind
            && !segs[j].finalized,
    decreases n,
{
    if n > 0 {
        lemma_newest_open_bounds(segs, kind, n - 1);
    }
}

impl RecoveryManifest {
    /// A source of `kind` delivered its first data at `now_micros`: the
    /// newest open segment of that kind starts there. Nothing else changes.
    pub fn mark_source_ready(&mut self, kind: SegmentKind, now_micros: i64)
        ensures
            match newest_open(old(self).segments@, kind, old(self).segments@.len() as int) {
                Some(j) => final(self).segments@ == old(self).segments@.update(
                    j,
                    RecoverySegment { start_micros: now_micros, ..old(self).segments@[j] },
                ),
                None => final(self).segments@ == old(self).segments@,
            },
            final(self).schema_version == old(self).schema_version,
            final(self).session_id == old(self).session_id,
            final(self).project_id == old(self).project_id,
            final(self).clock == old(self).clock,
            final(self).active == old(self).active,
            final(self).events == old(self).events,
    {
        let n = self.segments.len();
        let mut i: usize = n;
        while i > 0
            invariant
                n == self.segments.len(),
                i <= n,
                self.segments@ == old(self).segments@,
                self.schema_version == old(self).schema_version,
                self.session_id == old(self).session_id,
                self.project_id == old(self).project_id,
                self.clock == old(self).clock,
                self.active == old(self).active,
                self.events == old(self).events,
                newest_open(self.segments@, kind, n as int) == newest_open(
                    self.segments@,
                    kind,
                    i as int,
                ),
            decreases i,
        {
            let s = &self.segments[i - 1];
            if s.kind == kind && !s.finalized {
                let mut updated = s.duplicate();
                updated.start_micros = now_micros;
                self.segments.set(i - 1, updated);
                return;
            }
            i -= 1;
        }
    }

    /// Closes every open segment at `end_micros`: it gets the duration from
    /// its start (saturating) and counts as finalized. Finalized segments
    /// and the rest of the manifest stay as they were.
    pub fn finalize_open_segments(&mut self, end_micros: i64)
        ensures
            final(self).segments@.len() == old(self).segments@.len(),
            forall|k: int|
                0 <= k < old(self).segments@.len() ==> #[trigger] final(self).segments@[k] == (
                if old(self).segments@[k].finalized {
                    old(self).segments@[k]
                } else {
                    RecoverySegment {
                        duration_micros: Some(
                            saturating_diff(end_micros, old(self).segments@[k].start_micros),
                        ),
                        finalized: true,
                        ..old(self).segments@[k]
                    }
                }),
            final(self).schema_version == old(self).schema_version,
            final(self).session_id == old(self).session_id,
            final(self).project_id == old(self).project_id,
            final(self).clock == old(self).clock,
            final(self).active == old(self).active,
            final(self).events == old(self).events,
    {
        let ghost before = self.segments@;
        let n = self.segments.len();
        let mut i: usize = 0;
        while i < n
            invariant
                n == self.segments.len(),
                n == before.len(),
                before == old(self).segments@,
                self.schema_version == old(self).schema_version,
                self.session_id == old(self).session_id,
                self.project_id == old(self).project_id,
                self.clock == old(self).clock,
                self.active == old(self).active,
                self.events == old(self).events,
                0 <= i <= n,
                forall|k: int| i <= k < n ==> self.segments@[k] == before[k],
                forall|k: int|
                    0 <= k < i ==> #[trigger] self.segments@[k] == (if before[k].finalized {
                        before[k]
                    } else {
                        RecoverySegment {
                            duration_micros: Some(saturating_diff(end_micros, before[k].start_micros)),
                            finalized: true,
                            ..before[k]
                        }
                    }),
            decreases n - i,
        {
            if !self.segments[i].finalized {
                let mut s = self.segments[i].duplicate();
                s.duration_micros = Some(saturating_sub_i64(end_micros, s.start_micros));
                s.finalized = true;
                self.segments.set(i, s);
            }
            i += 1;
        }
    }
}

/// `a - b`, saturated into the `i64` range.
pub open spec fn saturating_diff(a: i64, b: i64) -> i64 {
    let d = a - b;
    if d > i64::MAX {
        i64::MAX
    } else if d < i64::MIN {
        i64::MIN
    } else {
        d as i64
    }
}

/// `a - b`, saturated into the `i64` range.
pub fn saturating_sub_i64(a: i64, b: i64) -> (d: i64)
    ensures
        d == saturating_diff(a, b),
{
    let w: i128 = a as i128 - b as i128;
    if w > i64::MAX as i128 {
        i64::MAX
    } else if w < i64::MIN as i128 {
        i64::MIN
    } else {
        w as i64
    }
}

/// After segments are closed, none is left open.
pub proof fn lemma_finalized_segments_stay_closed(before: Seq<RecoverySegment>, after: Seq<RecoverySegment>, end: i64)
    requires
        after.len() == before.len(),
        forall|k: int|
            0 <= k < before.len() ==> #[trigger] after[k] == (if before[k].finalized {
                before[k]
            } else {
                RecoverySegment {
                    duration_micros: Some(saturating_diff(end, before[k].start_micros)),
                    finalized: true,
                    ..before[k]
                }
            }),
    ensures
        forall|k: int| 0 <= k < after.len() ==> (#[trigger] after[k]).finalized,
        forall|k: int| 0 <= k < after.len() ==> (#[trigger] after[k]).relative_path == before[k].relative_path
            && after[k].kind == before[k].kind && after[k].start_micros == before[k].start_micros,
{
    assert forall|k: int| 0 <= k < after.len() implies (#[trigger] after[k]).finalized by {
        assert(after[k] == after[k]);
    }
}

} // verus!

verus! {

// ---------------------------------------------------------------------------
// The active recording
// ---------------------------------------------------------------------------

/// What the host reports about a recording.
#[derive(Debug, Clone)]
pub struct RecordingStatus {
    pub state: String,
    pub elapsed_micros: i64,
    pub segment_index: u32,
    pub message: String,
}

/// The bookkeeping of the recording in progress: what was asked for, the
/// recovery manifest, the current segment number, whether it is paused, and
/// the device events seen so far.
#[derive(Debug)]
pub struct ActiveSession {
    pub request: StartRecordingRequest,
    pub recovery: RecoveryManifest,
    pub segment_index: u32,
    pub paused: bool,
    pub device_events: Vec<String>,
}

impl ActiveSession {
    /// A session about to record its first segment.
    pub fn new(request: StartRecordingRequest, recovery: RecoveryManifest) -> (s: Self)
        ensures
            s.request == request,
            s.recovery == recovery,
            s.segment_index == 1,
            !s.paused,
            s.device_events@.len() == 0,
    {
        ActiveSession { request, recovery, segment_index: 1, paused: false, device_events: Vec::new() }
    }

    /// The segments of the current segment number are planned in the
    /// manifest, starting at `start_micros`.
    pub fn plan_current_segment(&mut self, start_micros: i64)
        requires
            old(self).recovery.segments@.len() + 6 <= usize::MAX,
        ensures
            appended_plan(
                old(self).recovery.segments@,
                final(self).recovery.segments@,
                planned_kinds(
                    old(self).request.microphone_id is Some,
                    old(self).request.system_audio,
                    old(self).request.camera_id is Some,
                    old(self).segment_index,
                ),
                old(self).segment_index,
                start_micros,
            ),
            final(self).request == old(self).request,
            final(self).segment_index == old(self).segment_index,
            final(self).paused == old(self).paused,
            final(self).device_events == old(self).device_events,
            final(self).recovery.session_id == old(self).recovery.session_id,
            final(self).recovery.active == old(self).recovery.active,
            final(self).recovery.schema_version == old(self).recovery.schema_version,
            final(self).recovery.project_id == old(self).recovery.project_id,
            final(self).recovery.clock == old(self).recovery.clock,
            final(self).recovery.events == old(self).recovery.events,
    {
        let index = self.segment_index;
        self.recovery.plan_segment(&self.request, index, start_micros);
    }

    /// All capture devices of the current segment are running.
    pub fn segment_started(&mut self)
        ensures
            !final(self).paused,
            final(self).request == old(self).request,
            final(self).recovery == old(self).recovery,
            final(self).segment_index == old(self).segment_index,
            final(self).device_events == old(self).device_events,
    {
        self.paused = false;
    }

    /// The capture devices were stopped at `end_micros` for a pause: every
    /// open segment is finalized there and the session counts as paused.
    pub fn pause(&mut self, end_micros: i64)
        ensures
            final(self).paused,
            final(self).segment_index == old(self).segment_index,
            final(self).request == old(self).request,
            final(self).device_events == old(self).device_events,
            final(self).recovery.segments@.len() == old(self).recovery.segments@.len(),
            forall|k: int|
                0 <= k < final(self).recovery.segments@.len() ==> (
                #[trigger] final(self).recovery.segments@[k]).finalized,
            forall|k: int|
                0 <= k < old(self).recovery.segments@.len() && old(
                    self,
                ).recovery.segments@[k].finalized ==> #[trigger] final(self).recovery.segments@[k]
                    == old(self).recovery.segments@[k],
            forall|k: int|
                0 <= k < old(self).recovery.segments@.len() && !old(
                    self,
                ).recovery.segments@[k].finalized ==> #[trigger] final(self).recovery.segments@[k]
                    == (RecoverySegment {
                    duration_micros: Some(
                        saturating_diff(end_micros, old(self).recovery.segments@[k].start_micros),
                    ),
                    finalized: true,
                    ..old(self).recovery.segments@[k]
                }),
            final(self).recovery.schema_version == old(self).recovery.schema_version,
            final(self).recovery.session_id == old(self).recovery.session_id,
            final(self).recovery.project_id == old(self).recovery.project_id,
            final(self).recovery.clock == old(self).recovery.clock,
            final(self).recovery.active == old(self).recovery.active,
            final(self).recovery.events == old(self).recovery.events,
    {
        self.recovery.finalize_open_segments(end_micros);
        proof {
            lemma_finalized_segments_stay_closed(old(self).recovery.segments@, self.recovery.segments@, end_micros);
        }
        self.paused = true;
    }

    /// The next segment number after a resume.
    pub fn resume(&mut self)
        requires
            old(self).segment_index < u32::MAX,
        ensures
            final(self).segment_index == old(self).segment_index + 1,
            final(self).paused == old(self).paused,
            final(self).request == old(self).request,
            final(self).recovery == old(self).recovery,
            final(self).device_events == old(self).device_events,
    {
        self.segment_index = self.segment_index + 1;
    }

    /// Records that a device of the request went missing, once.
    pub fn note_device_missing(&mut self, event: &str)
        ensures
            text_listed(old(self).device_events@, event@) ==> final(self).device_events@
                == old(self).device_events@,
            !text_listed(old(self).device_events@, event@) ==> final(self).device_events@.len()
                == old(self).device_events@.len() + 1 && final(self).device_events@.take(
                old(self).device_events@.len() as int,
            ) == old(self).device_events@ && final(self).device_events@.last()@ == event@,
            final(self).request == old(self).request,
            final(self).recovery == old(self).recovery,
            final(self).segment_index == old(self).segment_index,
            final(self).paused == old(self).paused,
    {
        let mut i: usize = 0;
        while i < self.device_events.len()
            invariant
                self.device_events == old(self).device_events,
                self.request == old(self).request,
                self.recovery == old(self).recovery,
                self.segment_index == old(self).segment_index,
                self.paused == old(self).paused,
                0 <= i <= self.device_events.len(),
                forall|k: int| 0 <= k < i ==> self.device_events@[k]@ != event@,
            decreases self.device_events.len() - i,
        {
            if same_text(self.device_events[i].as_str(), event) {
                return;
            }
            i += 1;
        }
        self.device_events.push(owned(event));
    }

    /// Notes `event` when the device the request names (`wanted`) is not
    /// among the devices currently listed (`listed_ids`); a request without
    /// that device, or a listed device, changes nothing.
    pub fn note_device_presence(&mut self, wanted: &Option<String>, listed_ids: &Vec<String>, event: &str)
        ensures
            (wanted matches Some(id) && !text_listed(listed_ids@, id@)) ==> {
                &&& text_listed(old(self).device_events@, event@) ==> final(self).device_events@
                    == old(self).device_events@
                &&& !text_listed(old(self).device_events@, event@) ==> final(self).device_events@.len()
                    == old(self).device_events@.len() + 1 && final(self).device_events@.take(
                    old(self).device_events@.len() as int,
                ) == old(self).device_events@ && final(self).device_events@.last()@ == event@
            },
            !(wanted matches Some(id) && !text_listed(listed_ids@, id@)) ==> final(self).device_events
                == old(self).device_events,
            final(self).request == old(self).request,
            final(self).recovery == old(self).recovery,
            final(self).segment_index == old(self).segment_index,
            final(self).paused == old(self).paused,
    {
        if let Some(id) = wanted {
            let mut i: usize = 0;
            while i < listed_ids.len()
                invariant
                    *self == *old(self),
                    *wanted == Some(*id),
                    0 <= i <= listed_ids.len(),
                    forall|k: int| 0 <= k < i ==> listed_ids@[k]@ != id@,
                decreases listed_ids.len() - i,
            {
                if same_text(listed_ids[i].as_str(), id.as_str()) {
                    assert(listed_ids@[i as int]@ == id@);
                    return;
                }
                i += 1;
            }
            self.note_device_missing(event);
        }
    }

    /// The status of the session `elapsed_micros` into the recording: the
    /// newest device event is its message.
    pub fn status(&self, elapsed_micros: i64) -> (s: RecordingStatus)
        ensures
            s.state@ == (if self.paused { "paused"@ } else { "recording"@ }),
            s.elapsed_micros == elapsed_micros,
            s.segment_index == self.segment_index,
            s.message@ == (if self.device_events@.len() == 0 {
                "Recording session is active"@
            } else {
                self.device_events@.last()@
            }),
    {
        let state = if self.paused { owned("paused") } else { owned("recording") };
        let n = self.device_events.len();
        let message = if n == 0 {
            owned("Recording session is active")
        } else {
            self.device_events[n - 1].clone()
        };
        RecordingStatus { state, elapsed_micros, segment_index: self.segment_index, message }
    }
}

/// Whether some text of `v` equals `t`.
pub open spec fn text_listed(v: Seq<String>, t: Seq<char>) -> bool {
    exists|k: int| 0 <= k < v.len() && (#[trigger] v[k])@ == t
}

} // verus!

verus! {

/// Why pausing is refused, if it is.
pub open spec fn pause_refusal(slot: Option<ActiveSession>) -> Option<Seq<char>> {
    match slot {
        None => Some("no recording is active"@),
        Some(a) => if a.paused { Some("recording is already paused"@) } else { None },
    }
}

/// Why resuming is refused, if it is.
pub open spec fn resume_refusal(slot: Option<ActiveSession>) -> Option<Seq<char>> {
    match slot {
        None => Some("no recording is active"@),
        Some(a) => if !a.paused { Some("recording is not paused"@) } else { None },
    }
}

/// `r` is the outcome a guard with refusal `refusal` gives.
pub open spec fn guard_outcome(r: Result<(), CommandError>, refusal: Option<Seq<char>>) -> bool {
    match refusal {
        None => r is Ok,
        Some(m) => r matches Err(CommandError::Recording(e)) && e@ == m,
    }
}

fn recording_error(m: &str) -> (e: CommandError)
    ensures
        e matches CommandError::Recording(t) && t@ == m@,
{
    CommandError::Recording(owned(m))
}

/// A new recording can only start when none is active.
pub fn check_can_start(slot: &Option<ActiveSession>) -> (r: Result<(), CommandError>)
    ensures
        guard_outcome(r, if slot is Some { Some("a recording is already active"@) } else { None }),
{
    if slot.is_some() {
        return Err(recording_error("a recording is already active"));
    }
    Ok(())
}

/// Stopping needs an active recording.
pub fn check_can_stop(slot: &Option<ActiveSession>) -> (r: Result<(), CommandError>)
    ensures
        guard_outcome(r, if slot is None { Some("no recording is active"@) } else { None }),
{
    if slot.is_none() {
        return Err(recording_error("no recording is active"));
    }
    Ok(())
}

/// Pausing needs a recording that is not paused already.
pub fn check_can_pause(slot: &Option<ActiveSession>) -> (r: Result<(), CommandError>)
    ensures
        guard_outcome(r, pause_refusal(*slot)),
{
    match slot {
        None => Err(recording_error("no recording is active")),
        Some(a) => if a.paused {
            Err(recording_error("recording is already paused"))
        } else {
            Ok(())
        },
    }
}

/// Resuming needs a paused recording.
pub fn check_can_resume(slot: &Option<ActiveSession>) -> (r: Result<(), CommandError>)
    ensures
        guard_outcome(r, resume_refusal(*slot)),
{
    match slot {
        None => Err(recording_error("no recording is active")),
        Some(a) => if !a.paused {
            Err(recording_error("recording is not paused"))
        } else {
            Ok(())
        },
    }
}

/// Pause and resume alternate: once paused a session refuses another pause
/// and accepts a resume, and once recording again it refuses a resume and
/// accepts a pause.
pub proof fn lemma_pause_and_resume_alternate(s: ActiveSession)
    ensures
        s.paused ==> pause_refusal(Some(s)) == Some("recording is already paused"@)
            && resume_refusal(Some(s)) is None,
        !s.paused ==> resume_refusal(Some(s)) == Some("recording is not paused"@)
            && pause_refusal(Some(s)) is None,
{
}

fn status_of(state: &str, elapsed_micros: i64, segment_index: u32, message: &str) -> (s: RecordingStatus)
    ensures
        s.state@ == state@,
        s.elapsed_micros == elapsed_micros,
        s.segment_index == segment_index,
        s.message@ == message@,
{
    RecordingStatus { state: owned(state), elapsed_micros, segment_index, message: owned(message) }
}

/// The status reported when a recording starts.
pub fn started_status() -> (s: RecordingStatus)
    ensures
        s.state@ == "recording"@,
        s.elapsed_micros == 0,
        s.segment_index == 1,
        s.message@ == "Recording started"@,
{
    status_of("recording", 0, 1, "Recording started")
}

/// The status reported after a pause.
pub fn paused_status(elapsed_micros: i64, segment_index: u32) -> (s: RecordingStatus)
    ensures
        s.state@ == "paused"@,
        s.elapsed_micros == elapsed_micros,
        s.segment_index == segment_index,
        s.message@ == "Recording paused; segment finalized"@,
{
    status_of("paused", elapsed_micros, segment_index, "Recording paused; segment finalized")
}

/// The status reported after a resume.
pub fn resumed_status(elapsed_micros: i64, segment_index: u32) -> (s: RecordingStatus)
    ensures
        s.state@ == "recording"@,
        s.elapsed_micros == elapsed_micros,
        s.segment_index == segment_index,
        s.message@ == "Recording resumed in a new recoverable segment"@,
{
    status_of(
        "recording",
        elapsed_micros,
        segment_index,
        "Recording resumed in a new recoverable segment",
    )
}

/// The status reported when a recording stops.
pub fn stopped_status(elapsed_micros: i64, segment_index: u32) -> (s: RecordingStatus)
    ensures
        s.state@ == "stopped"@,
        s.elapsed_micros == elapsed_micros,
        s.segment_index == segment_index,
        s.message@ == "All finalized segments were committed to the project"@,
{
    status_of(
        "stopped",
        elapsed_micros,
        segment_index,
        "All finalized segments were committed to the project",
    )
}

// ---------------------------------------------------------------------------
// Recovered segments become project sources
// ---------------------------------------------------------------------------

/// The kind of project source a segment of `kind` provides; telemetry logs
/// are no source.
pub open spec fn source_kind_of(kind: SegmentKind) -> Option<SourceKind> {
    match kind {
        SegmentKind::Screen => Some(SourceKind::ScreenVideo),
        SegmentKind::Microphone => Some(SourceKind::MicrophoneAudio),
        SegmentKind::SystemAudio => Some(SourceKind::SystemAudio),
        SegmentKind::Camera => Some(SourceKind::CameraVideo),
        SegmentKind::Cursor | SegmentKind::Clicks => None,
    }
}

pub fn source_kind_for(kind: SegmentKind) -> (k: Option<SourceKind>)
    ensures
        k == source_kind_of(kind),
{
    match kind {
        SegmentKind::Screen => Some(SourceKind::ScreenVideo),
        SegmentKind::Microphone => Some(SourceKind::MicrophoneAudio),
        SegmentKind::SystemAudio => Some(SourceKind::SystemAudio),
        SegmentKind::Camera => Some(SourceKind::CameraVideo),
        SegmentKind::Cursor | SegmentKind::Clicks => None,
    }
}

/// Some source of `sources` has the relative path `p`.
pub open spec fn has_source_path(sources: Seq<SourceMedia>, p: Seq<char>) -> bool {
    exists|k: int| 0 <= k < sources.len() && (#[trigger] sources[k]).relative_path@ == p
}

/// The manifest `new` is `old` with only its sources changed.
pub open spec fn only_sources_changed(old: ProjectManifest, new: ProjectManifest) -> bool {
    &&& new.schema_version == old.schema_version
    &&& new.id == old.id
    &&& new.title == old.title
    &&& new.created_at == old.created_at
    &&& new.updated_at == old.updated_at
    &&& new.frame_rate == old.frame_rate
    &&& new.duration == old.duration
    &&& new.tracks == old.tracks
    &&& new.edit_regions == old.edit_regions
    &&& new.artifacts == old.artifacts
    &&& new.cache_entries == old.cache_entries
    &&& new.recording_sessions == old.recording_sessions
    &&& new.editor == old.editor
}

/// Adds a source of `kind` for the file at `path` (written with forward
/// slashes), unless a source already has that path.
pub fn append_source(project: &mut ProjectManifest, kind: SourceKind, path: &str)
    ensures
        only_sources_changed(*old(project), *final(project)),
        has_source_path(old(project).sources@, forward_slashes(path@))
            ==> final(project).sources@ == old(project).sources@,
        !has_source_path(old(project).sources@, forward_slashes(path@)) ==> {
            &&& final(project).sources@.len() == old(project).sources@.len() + 1
            &&& final(project).sources@.take(old(project).sources@.len() as int)
                == old(project).sources@
            &&& final(project).sources@.last().kind == kind
            &&& final(project).sources@.last().relative_path@ == forward_slashes(path@)
            &&& is_v4_uuid(final(project).sources@.last().id)
        },
{
    let relative = to_forward_slashes(path);
    let mut i: usize = 0;
    while i < project.sources.len()
        invariant
            *project == *old(project),
            relative@ == forward_slashes(path@),
            0 <= i <= project.sources.len(),
            forall|k: int| 0 <= k < i ==> (#[trigger] project.sources@[k]).relative_path@ != relative@,
        decreases project.sources.len() - i,
    {
        if same_text(project.sources[i].relative_path.as_str(), relative.as_str()) {
            return;
        }
        i += 1;
    }
    project.sources.push(SourceMedia { id: new_id(), kind, relative_path: relative });
    assert(project.sources@.take(old(project).sources@.len() as int) =~= old(project).sources@);
}

/// Some entry of `entries` has path `p`.
pub open spec fn entry_listed(entries: Seq<(SourceKind, Seq<char>)>, p: Seq<char>) -> bool {
    exists|j: int| 0 <= j < entries.len() && (#[trigger] entries[j]).1 == p
}

/// The sources that recovering `playable` adds to a project that has
/// `sources`, in order, as kind and path: one for each media segment whose
/// path (with forward slashes) neither an existing source nor an earlier
/// added one has; telemetry segments add none.
pub open spec fn recovered_entries(sources: Seq<SourceMedia>, playable: Seq<RecoverySegment>) -> Seq<
    (SourceKind, Seq<char>),
>
    decreases playable.len(),
{
    if playable.len() == 0 {
        seq![]
    } else {
        let prior = recovered_entries(sources, playable.drop_last());
        let seg = playable.last();
        let p = forward_slashes(seg.relative_path@);
        match source_kind_of(seg.kind) {
            Some(k) => if has_source_path(sources, p) || entry_listed(prior, p) {
                prior
            } else {
                prior.push((k, p))
            },
            None => prior,
        }
    }
}

/// The sources `added` are the `entries`, each with a fresh v4 id.
pub open spec fn matches_entries(added: Seq<SourceMedia>, entries: Seq<(SourceKind, Seq<char>)>) -> bool {
    &&& added.len() == entries.len()
    &&& forall|j: int|
        0 <= j < added.len() ==> (#[trigger] added[j]).kind == entries[j].0 && added[j].relative_path@
            == entries[j].1 && is_v4_uuid(added[j].id)
}

proof fn lemma_sources_with_added(
    start: Seq<SourceMedia>,
    all: Seq<SourceMedia>,
    entries: Seq<(SourceKind, Seq<char>)>,
    p: Seq<char>,
)
    requires
        all.len() >= start.len(),
        all.take(start.len() as int) == start,
        matches_entries(all.skip(start.len() as int), entries),
    ensures
        has_source_path(all, p) <==> (has_source_path(start, p) || entry_listed(entries, p)),
{
    let added = all.skip(start.len() as int);
    if has_source_path(all, p) {
        let w = choose|w: int| 0 <= w < all.len() && (#[trigger] all[w]).relative_path@ == p;
        if w < start.len() {
            assert(start[w] == all.take(start.len() as int)[w]);
        } else {
            assert(added[w - start.len()] == all[w]);
            assert(entries[w - start.len()].1 == p);
        }
    }
    if has_source_path(start, p) {
        let w = choose|w: int| 0 <= w < start.len() && (#[trigger] start[w]).relative_path@ == p;
        assert(start[w] == all.take(start.len() as int)[w]);
        assert(all[w].relative_path@ == p);
    }
    if entry_listed(entries, p) {
        let j = choose|j: int| 0 <= j < entries.len() && (#[trigger] entries[j]).1 == p;
        assert(added[j] == all[start.len() + j]);
        assert(all[start.len() + j].relative_path@ == p);
    }
}

/// Adds a project source for every recovered media segment whose file no
/// source has yet, in order (see `recovered_entries`); telemetry segments
/// add nothing, and nothing else of the project changes.
pub fn add_recovered_sources(project: &mut ProjectManifest, playable: &Vec<RecoverySegment>)
    requires
        old(project).sources@.len() + playable@.len() <= usize::MAX,
    ensures
        only_sources_changed(*old(project), *final(project)),
        final(project).sources@.len() >= old(project).sources@.len(),
        final(project).sources@.take(old(project).sources@.len() as int) == old(project).sources@,
        matches_entries(
            final(project).sources@.skip(old(project).sources@.len() as int),
            recovered_entries(old(project).sources@, playable@),
        ),
        forall|k: int|
            0 <= k < playable@.len() && source_kind_of((#[trigger] playable@[k]).kind) is Some
                ==> has_source_path(final(project).sources@, forward_slashes(playable@[k].relative_path@)),
        (forall|k: int|
            0 <= k < playable@.len() && source_kind_of((#[trigger] playable@[k]).kind) is Some
                ==> has_source_path(old(project).sources@, forward_slashes(playable@[k].relative_path@)))
            ==> final(project).sources@ == old(project).sources@,
{
    let ghost start = project.sources@;
    let mut i: usize = 0;
    assert(project.sources@.skip(start.len() as int) =~= Seq::<SourceMedia>::empty());
    assert(playable@.take(0) =~= Seq::<RecoverySegment>::empty());
    assert(project.sources@.take(start.len() as int) =~= start);
    while i < playable.len()
        invariant
            only_sources_changed(*old(project), *project),
            start == old(project).sources@,
            project.sources@.len() <= start.len() + i,
            start.len() <= project.sources@.len(),
            start.len() + playable@.len() <= usize::MAX,
            0 <= i <= playable.len(),
            project.sources@.take(start.len() as int) == start,
            matches_entries(
                project.sources@.skip(start.len() as int),
                recovered_entries(start, playable@.take(i as int)),
            ),
            forall|k: int|
                0 <= k < i && source_kind_of((#[trigger] playable@[k]).kind) is Some
                    ==> has_source_path(project.sources@, forward_slashes(playable@[k].relative_path@)),
            (forall|k: int|
                0 <= k < playable@.len() && source_kind_of((#[trigger] playable@[k]).kind) is Some
                    ==> has_source_path(start, forward_slashes(playable@[k].relative_path@)))
                ==> project.sources@ == start,
        decreases playable.len() - i,
    {
        let seg = &playable[i];
        let ghost taken = playable@.take(i + 1);
        proof {
            assert(taken.drop_last() =~= playable@.take(i as int));
            assert(taken.last() == playable@[i as int]);
        }
        let ghost prior = recovered_entries(start, playable@.take(i as int));
        match source_kind_for(seg.kind) {
            Some(kind) => {
                let ghost before = project.sources@;
                proof {
                    lemma_sources_with_added(start, before, prior, forward_slashes(seg.relative_path@));
                }
                append_source(project, kind, seg.relative_path.as_str());
                proof {
                    let p = forward_slashes(seg.relative_path@);
                    if project.sources@ != before {
                        assert(project.sources@.take(before.len() as int) == before);
                        assert forall|j: int| 0 <= j < start.len() implies project.sources@[j]
                            == start[j] by {
                            assert(project.sources@[j] == project.sources@.take(
                                before.len() as int,
                            )[j]);
                            assert(before[j] == before.take(start.len() as int)[j]);
                        }
                        assert(project.sources@.take(start.len() as int) =~= start);
                        let added = project.sources@.skip(start.len() as int);
                        let entries = recovered_entries(start, taken);
                        assert(entries == prior.push((kind, p)));
                        assert forall|j: int| 0 <= j < added.len() implies (#[trigger] added[j]).kind
                            == entries[j].0 && added[j].relative_path@ == entries[j].1
                            && is_v4_uuid(added[j].id) by {
                            if j < prior.len() {
                                assert(added[j] == project.sources@[start.len() + j]);
                                assert(project.sources@[start.len() + j] == before[start.len() + j]);
                                assert(before.skip(start.len() as int)[j] == before[start.len() + j]);
                            } else {
                                assert(added[j] == project.sources@.last());
                            }
                        }
                    } else {
                        assert(recovered_entries(start, taken) == prior);
                    }
                    assert forall|k: int|
                        0 <= k < i + 1 && source_kind_of((#[trigger] playable@[k]).kind) is Some
                            implies has_source_path(
                            project.sources@,
                            forward_slashes(playable@[k].relative_path@),
                        ) by {
                        if k < i {
                            let q = forward_slashes(playable@[k].relative_path@);
                            let w = choose|w: int| 0 <= w < before.len() && (#[trigger] before[w]).relative_path@ == q;
                            if project.sources@ != before {
                                assert(project.sources@.take(before.len() as int) == before);
                                assert(project.sources@[w] == before[w]);
                            }
                        } else {
                            if !has_source_path(before, p) {
                                let w = project.sources@.len() - 1;
                                assert(project.sources@[w].relative_path@ == p);
                            }
                        }
                    }
                }
            },
            None => {
                proof {
                    assert(recovered_entries(start, taken) == prior);
                }
            },
        }
        i += 1;
    }
    assert(playable@.take(playable@.len() as int) =~= playable@);
}

/// The screen encoder settings for a segment of `request`, written to
/// `output`: 16 Mbps at 60 fps, 10 Mbps otherwise.
pub fn screen_config(request: &StartRecordingRequest, output: String) -> (c: ScreenRecordingConfig)
    ensures
        c.source_id@ == request.source_id@,
        c.output == output,
        c.fps == request.fps,
        c.bitrate == (if request.fps == 60 { 16_000_000u32 } else { 10_000_000u32 }),
{
    ScreenRecordingConfig {
        source_id: request.source_id.clone(),
        output,
        fps: request.fps,
        bitrate: if request.fps == 60 { 16_000_000 } else { 10_000_000 },
    }
}

/// The bounds of the first enumerated source with id `source_id`, where the
/// input telemetry of a segment maps the cursor; an error when the source
/// has gone away.
pub fn telemetry_bounds(sources: &Vec<CaptureSource>, source_id: &str) -> (r: Result<RectI32, CommandError>)
    ensures
        (forall|i: int| 0 <= i < sources@.len() ==> sources@[i].id@ != source_id@) ==> (r matches Err(
            CommandError::Recording(m),
        ) && m@ == "selected source closed before telemetry started"@),
        forall|i: int|
            0 <= i < sources@.len() && (#[trigger] sources@[i]).id@ == source_id@ && (forall|j: int|
                0 <= j < i ==> sources@[j].id@ != source_id@) ==> r == Ok::<RectI32, CommandError>(
                sources@[i].bounds,
            ),
{
    let mut i: usize = 0;
    while i < sources.len()
        invariant
            0 <= i <= sources.len(),
            forall|j: int| 0 <= j < i ==> sources@[j].id@ != source_id@,
        decreases sources.len() - i,
    {
        if same_text(sources[i].id.as_str(), source_id) {
            return Ok(sources[i].bounds);
        }
        i += 1;
    }
    Err(CommandError::Recording(owned("selected source closed before telemetry started")))
}

/// The session record a starting recording adds to its project: its session
/// id and clock origin, no pause yet, and interrupted until it stops.
pub open spec fn session_record(recovery: RecoveryManifest) -> RecordingSessionMetadata {
    RecordingSessionMetadata {
        id: recovery.session_id,
        wall_time_utc: recovery.clock.wall_time_utc,
        qpc_origin_ticks: recovery.clock.qpc_ticks,
        qpc_frequency: recovery.clock.qpc_frequency,
        paused_duration: TimeMicros(0),
        interrupted: true,
    }
}

/// `new` is `old` with at most its frame rate, duration and recording
/// sessions changed.
pub open spec fn only_session_fields_changed(old: ProjectManifest, new: ProjectManifest) -> bool {
    &&& new.schema_version == old.schema_version
    &&& new.id == old.id
    &&& new.title == old.title
    &&& new.created_at == old.created_at
    &&& new.updated_at == old.updated_at
    &&& new.sources == old.sources
    &&& new.tracks == old.tracks
    &&& new.edit_regions == old.edit_regions
    &&& new.artifacts == old.artifacts
    &&& new.cache_entries == old.cache_entries
    &&& new.editor == old.editor
}

/// The project as a recording starts: the session is recorded as
/// interrupted, and the frame rate takes the requested fps.
pub fn begin_recording_session(project: &mut ProjectManifest, recovery: &RecoveryManifest, fps: u32)
    ensures
        only_session_fields_changed(*old(project), *final(project)),
        final(project).duration == old(project).duration,
        final(project).recording_sessions@ == old(project).recording_sessions@.push(
            session_record(*recovery),
        ),
        final(project).frame_rate == (FrameRate {
            numerator: fps,
            denominator: old(project).frame_rate.denominator,
        }),
{
    project.recording_sessions.push(
        RecordingSessionMetadata {
            id: recovery.session_id,
            wall_time_utc: recovery.clock.wall_time_utc,
            qpc_origin_ticks: recovery.clock.qpc_ticks,
            qpc_frequency: recovery.clock.qpc_frequency,
            paused_duration: TimeMicros(0),
            interrupted: true,
        },
    );
    project.frame_rate.numerator = fps;
}

/// The record `r` once its recording has stopped.
pub open spec fn completed(r: RecordingSessionMetadata) -> RecordingSessionMetadata {
    RecordingSessionMetadata { interrupted: false, ..r }
}

/// The project as a recording stops after `elapsed_micros`: that is its
/// duration, and the first session record with `session_id` is no longer
/// interrupted.
pub fn end_recording_session(project: &mut ProjectManifest, session_id: u128, elapsed_micros: i64)
    ensures
        only_session_fields_changed(*old(project), *final(project)),
        final(project).frame_rate == old(project).frame_rate,
        final(project).duration == TimeMicros(elapsed_micros),
        (forall|i: int| 0 <= i < old(project).recording_sessions@.len()
            ==> old(project).recording_sessions@[i].id != session_id)
            ==> final(project).recording_sessions@ == old(project).recording_sessions@,
        forall|i: int|
            #![trigger old(project).recording_sessions@[i]]
            0 <= i < old(project).recording_sessions@.len()
                && old(project).recording_sessions@[i].id == session_id
                && (forall|j: int| 0 <= j < i ==> old(project).recording_sessions@[j].id != session_id)
                ==> final(project).recording_sessions@ == old(project).recording_sessions@.update(
                i,
                completed(old(project).recording_sessions@[i]),
            ),
{
    project.duration = TimeMicros(elapsed_micros);
    let mut i: usize = 0;
    while i < project.recording_sessions.len()
        invariant
            only_session_fields_changed(*old(project), *project),
            project.frame_rate == old(project).frame_rate,
            project.duration == TimeMicros(elapsed_micros),
            project.recording_sessions == old(project).recording_sessions,
            0 <= i <= project.recording_sessions.len(),
            forall|j: int| 0 <= j < i ==> project.recording_sessions@[j].id != session_id,
        decreases project.recording_sessions.len() - i,
    {
        if project.recording_sessions[i].id == session_id {
            let r = &project.recording_sessions[i];
            let done = RecordingSessionMetadata {
                id: r.id,
                wall_time_utc: r.wall_time_utc,
                qpc_origin_ticks: r.qpc_origin_ticks,
                qpc_frequency: r.qpc_frequency,
                paused_duration: r.paused_duration,
                interrupted: false,
            };
            project.recording_sessions.set(i, done);
            return;
        }
        i += 1;
    }
}

} // verus!

verus! {

/// A recent project whose interrupted recording can be recovered.
#[derive(Debug, Clone)]
pub struct RecoveryCandidate {
    pub project_path: String,
    pub project_title: String,
    pub session_id: String,
    pub finalized_segments: usize,
}

/// What a recent project offers for recovery: a candidate when the project
/// is present and its recovery manifest (`recovery`, as replayed) is still
/// active, counting its `playable` finalized segments; nothing otherwise.
pub fn recovery_candidate(recent: &RecentProject, recovery: &Option<RecoveryManifest>, playable: usize) -> (c:
    Option<RecoveryCandidate>)
    ensures
        c is Some <==> (!recent.missing && (recovery matches Some(r) && r.active)),
        c matches Some(x) ==> {
            &&& x.project_path@ == recent.path@
            &&& x.project_title@ == recent.title@
            &&& recovery matches Some(r) && x.session_id@ == uuid_text(r.session_id)
            &&& x.finalized_segments == playable
        },
{
    if recent.missing {
        return None;
    }
    match recovery {
        Some(r) => if r.active {
            Some(
                RecoveryCandidate {
                    project_path: recent.path.clone(),
                    project_title: recent.title.clone(),
                    session_id: id_text(r.session_id),
                    finalized_segments: playable,
                },
            )
        } else {
            None
        },
        None => None,
    }
}

/// A project as the start screen lists it.
#[derive(Debug, Clone)]
pub struct ProjectSummary {
    pub id: String,
    pub title: String,
    pub path: String,
    pub updated_at: String,
    pub missing: bool,
}

impl ProjectSummary {
    pub fn from_recent(value: RecentProject) -> (s: Self)
        ensures
            s.id == value.project_id,
            s.title == value.title,
            s.path == value.path,
            s.updated_at == value.updated_at,
            s.missing == value.missing,
    {
        ProjectSummary {
            id: value.project_id,
            title: value.title,
            path: value.path,
            updated_at: value.updated_at,
            missing: value.missing,
        }
    }
}

/// The summary of the project at `root` with manifest `manifest`; the last
/// change is written in RFC 3339 form, or left empty when the timestamp is
/// outside what a calendar date can hold.
pub fn summary(root: &str, manifest: &ProjectManifest) -> (s: ProjectSummary)
    ensures
        s.id@ == uuid_text(manifest.id),
        s.title@ == manifest.title@,
        s.path@ == root@,
        s.updated_at@ == (match rfc3339_of(manifest.updated_at) {
            Some(t) => t,
            None => seq![],
        }),
        !s.missing,
{
    let updated_at = match instant_text(manifest.updated_at) {
        Some(t) => t,
        None => String::new(),
    };
    ProjectSummary {
        id: id_text(manifest.id),
        title: manifest.title.clone(),
        path: owned(root),
        updated_at,
        missing: false,
    }
}

} // verus!

verus! {

impl CommandError {
    /// The message the host returns to the user interface.
    pub fn message(&self) -> (m: String)
        ensures
            match *self {
                CommandError::Project(e) => m@ == crate::project::project_error_text(e),
                CommandError::Persistence(d) => m@ == "database error: "@ + d@,
                CommandError::Settings(e) => m@ == crate::settings::settings_error_text(e),
                CommandError::InvalidPath(d) => m@ == "invalid project location: "@ + d@,
                CommandError::Recording(d) => m@ == "recording failed: "@ + d@,
            },
    {
        match self {
            CommandError::Project(e) => e.message(),
            CommandError::Persistence(d) => concat("database error: ", d.as_str()),
            CommandError::Settings(e) => e.message(),
            CommandError::InvalidPath(d) => concat("invalid project location: ", d.as_str()),
            CommandError::Recording(d) => concat("recording failed: ", d.as_str()),
        }
    }
}

} // verus!
