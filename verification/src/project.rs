//! The portable `.kiri` project manifest: its data model and the validation
//! that every load and save goes through.
//!
//! Identifiers are UUIDs held as their 128-bit value (0 is the nil UUID),
//! instants are microseconds since the Unix epoch, and the `payload` of an
//! edit region and the `editor` state are carried as JSON text.
use vstd::prelude::*;
use crate::ids::{new_id, now_micros, is_v4_uuid, lemma_v4_is_not_nil};
use crate::pathjail::{jailed_path, slash_normalized, stays_in_project};
use crate::text::{chars_of, concat, owned};

verus! {

pub const CURRENT_SCHEMA_VERSION: u32 = 2;

pub const MANIFEST_FILE: &'static str = "project.json";

/// Editor state that deserializes to every default.
pub const DEFAULT_EDITOR_JSON: &'static str = "{}";

/// Why a project could not be created, opened, validated or saved.
#[derive(Debug, Clone)]
pub enum ProjectError {
    Io(String),
    Json(String),
    Validation(String),
    UnsupportedSchema(u32),
}

/// A non-negative point or span on a timeline, in microseconds.
#[derive(Debug, Clone, Copy, PartialEq, Eq, Structural)]
pub struct TimeMicros(pub i64);

/// A rational frame rate.
#[derive(Debug, Clone, Copy, PartialEq, Eq, Structural)]
pub struct FrameRate {
    pub numerator: u32,
    pub denominator: u32,
}

#[derive(Debug, Clone, Copy, PartialEq, Eq, Structural)]
pub enum SourceKind {
    ScreenVideo,
    CameraVideo,
    MicrophoneAudio,
    SystemAudio,
    NarrationAudio,
}

#[derive(Debug, Clone, Copy, PartialEq, Eq, Structural)]
pub enum TrackKind {
    Screen,
    Camera,
    Microphone,
    SystemAudio,
    Narration,
    Music,
    Cursor,
    Zoom,
    Captions,
    Annotation,
    Background,
    Markers,
}

#[derive(Debug, Clone)]
pub struct RecordingSessionMetadata {
    pub id: u128,
    pub wall_time_utc: i64,
    pub qpc_origin_ticks: i64,
    pub qpc_frequency: i64,
    pub paused_duration: TimeMicros,
    pub interrupted: bool,
}

#[derive(Debug, Clone)]
pub struct SourceMedia {
    pub id: u128,
    pub kind: SourceKind,
    pub relative_path: String,
}

#[derive(Debug, Clone)]
pub struct Clip {
    pub id: u128,
    pub source_id: u128,
    pub start: TimeMicros,
    pub duration: TimeMicros,
    pub source_offset: TimeMicros,
}

#[derive(Debug, Clone)]
pub struct Track {
    pub id: u128,
    pub kind: TrackKind,
    pub clips: Vec<Clip>,
}

#[derive(Debug, Clone)]
pub struct EditRegion {
    pub id: u128,
    pub kind: String,
    pub start: TimeMicros,
    pub duration: TimeMicros,
    /// The region's JSON payload, as text.
    pub payload: String,
}

#[derive(Debug, Clone)]
pub struct GeneratedArtifact {
    pub id: u128,
    pub kind: String,
    pub relative_path: String,
    pub regenerable: bool,
}

#[derive(Debug, Clone)]
pub struct CacheEntry {
    pub id: u128,
    pub kind: String,
    pub relative_path: String,
}

#[derive(Debug, Clone)]
pub struct ProjectManifest {
    pub schema_version: u32,
    pub id: u128,
    pub title: String,
    pub created_at: i64,
    pub updated_at: i64,
    pub frame_rate: FrameRate,
    pub duration: TimeMicros,
    pub sources: Vec<SourceMedia>,
    pub tracks: Vec<Track>,
    pub edit_regions: Vec<EditRegion>,
    pub artifacts: Vec<GeneratedArtifact>,
    pub cache_entries: Vec<CacheEntry>,
    pub recording_sessions: Vec<RecordingSessionMetadata>,
    /// The editor state, as JSON text.
    pub editor: String,
}

// ---------------------------------------------------------------------------
// What a valid manifest is
// ---------------------------------------------------------------------------

/// `c` is a Unicode `White_Space` character (what `str::trim` removes).
pub open spec fn is_white(c: char) -> bool {
    ||| '\u{9}' <= c <= '\u{d}'
    ||| c == ' '
    ||| c == '\u{85}'
    ||| c == '\u{a0}'
    ||| c == '\u{1680}'
    ||| '\u{2000}' <= c <= '\u{200a}'
    ||| c == '\u{2028}'
    ||| c == '\u{2029}'
    ||| c == '\u{202f}'
    ||| c == '\u{205f}'
    ||| c == '\u{3000}'
}

/// `s` is empty once trimmed.
pub open spec fn is_blank(s: Seq<char>) -> bool {
    forall|k: int| 0 <= k < s.len() ==> is_white(#[trigger] s[k])
}

/// `e` is the validation error with message `msg`.
pub open spec fn is_validation(e: ProjectError, msg: Seq<char>) -> bool {
    e matches ProjectError::Validation(m) && m@ == msg
}

/// `r` is `Ok` exactly when there is no fault, and otherwise the validation
/// error that names the fault.
pub open spec fn reports(r: Result<(), ProjectError>, fault: Option<Seq<char>>) -> bool {
    match fault {
        None => r is Ok,
        Some(msg) => r matches Err(e) && is_validation(e, msg),
    }
}

/// The first fault among `f(0), f(1), .., f(n - 1)`.
pub open spec fn first_fault(n: nat, f: spec_fn(int) -> Option<Seq<char>>) -> Option<Seq<char>>
    decreases n,
{
    if n == 0 {
        None
    } else {
        match first_fault((n - 1) as nat, f) {
            Some(m) => Some(m),
            None => f(n - 1),
        }
    }
}

/// `a` if it is a fault, else `b`.
pub open spec fn or_else(a: Option<Seq<char>>, b: Option<Seq<char>>) -> Option<Seq<char>> {
    if a is Some {
        a
    } else {
        b
    }
}

pub open spec fn negative_time_msg() -> Seq<char> {
    "time cannot be negative"@
}

pub open spec fn jail_msg(path: Seq<char>) -> Seq<char> {
    "path must stay inside project: "@ + path
}

/// The fault of a stored relative path, if it leaves the project.
pub open spec fn path_fault(path: Seq<char>) -> Option<Seq<char>> {
    if stays_in_project(path) {
        None
    } else {
        Some(jail_msg(path))
    }
}

pub open spec fn time_fault(t: TimeMicros) -> Option<Seq<char>> {
    if t.0 < 0 {
        Some(negative_time_msg())
    } else {
        None
    }
}

pub open spec fn frame_rate_fault(r: FrameRate) -> Option<Seq<char>> {
    if r.numerator == 0 || r.denominator == 0 {
        Some("frame-rate values must be non-zero"@)
    } else {
        None
    }
}

pub open spec fn source_fault(s: SourceMedia) -> Option<Seq<char>> {
    if s.id == 0 {
        Some("source ID cannot be nil"@)
    } else {
        path_fault(s.relative_path@)
    }
}

/// Some two entries of `ids` are equal.
pub open spec fn has_duplicate(ids: Seq<u128>) -> bool {
    exists|i: int, j: int| 0 <= i < j < ids.len() && ids[i] == ids[j]
}

/// `ids[i]` already occurs before position `i`.
pub open spec fn seen_before(ids: Seq<u128>, i: int) -> bool {
    exists|j: int| 0 <= j < i && ids[j] == ids[i]
}

pub open spec fn artifact_fault(a: GeneratedArtifact) -> Option<Seq<char>> {
    if a.id == 0 {
        Some("artifact ID cannot be nil"@)
    } else if is_blank(a.kind@) {
        Some("artifact kind cannot be empty"@)
    } else {
        path_fault(a.relative_path@)
    }
}

pub open spec fn cache_fault(c: CacheEntry) -> Option<Seq<char>> {
    if c.id == 0 {
        Some("cache entry ID cannot be nil"@)
    } else if is_blank(c.kind@) {
        Some("cache entry kind cannot be empty"@)
    } else {
        path_fault(c.relative_path@)
    }
}

pub open spec fn clip_ids(clips: Seq<Clip>) -> Seq<u128> {
    clips.map_values(|c: Clip| c.id)
}

pub open spec fn clip_fault(clips: Seq<Clip>, k: int) -> Option<Seq<char>> {
    let c = clips[k];
    if c.id == 0 {
        Some("clip ID cannot be nil"@)
    } else if seen_before(clip_ids(clips), k) {
        Some("duplicate clip ID"@)
    } else if c.source_id == 0 {
        Some("clip source ID cannot be nil"@)
    } else if c.start.0 < 0 || c.duration.0 < 0 || c.source_offset.0 < 0 {
        Some(negative_time_msg())
    } else {
        None
    }
}

pub open spec fn track_ids(tracks: Seq<Track>) -> Seq<u128> {
    tracks.map_values(|t: Track| t.id)
}

pub open spec fn track_fault(tracks: Seq<Track>, i: int) -> Option<Seq<char>> {
    let t = tracks[i];
    if t.id == 0 {
        Some("track ID cannot be nil"@)
    } else if seen_before(track_ids(tracks), i) {
        Some("duplicate track ID"@)
    } else {
        first_fault(t.clips@.len(), |k: int| clip_fault(t.clips@, k))
    }
}

pub open spec fn region_ids(regions: Seq<EditRegion>) -> Seq<u128> {
    regions.map_values(|r: EditRegion| r.id)
}

pub open spec fn region_fault(regions: Seq<EditRegion>, i: int) -> Option<Seq<char>> {
    let r = regions[i];
    if r.id == 0 {
        Some("edit region ID cannot be nil"@)
    } else if seen_before(region_ids(regions), i) {
        Some("duplicate edit region ID"@)
    } else if is_blank(r.kind@) {
        Some("edit region kind cannot be empty"@)
    } else if r.start.0 < 0 || r.duration.0 < 0 {
        Some(negative_time_msg())
    } else {
        None
    }
}

pub open spec fn session_ids(sessions: Seq<RecordingSessionMetadata>) -> Seq<u128> {
    sessions.map_values(|s: RecordingSessionMetadata| s.id)
}

pub open spec fn session_fault(sessions: Seq<RecordingSessionMetadata>, i: int) -> Option<
    Seq<char>,
> {
    let s = sessions[i];
    if s.id == 0 || s.qpc_frequency <= 0 {
        Some("recording clock metadata is invalid"@)
    } else if seen_before(session_ids(sessions), i) {
        Some("duplicate recording session ID"@)
    } else {
        time_fault(s.paused_duration)
    }
}

pub open spec fn source_ids(sources: Seq<SourceMedia>) -> Seq<u128> {
    sources.map_values(|s: SourceMedia| s.id)
}

pub open spec fn sources_fault(sources: Seq<SourceMedia>) -> Option<Seq<char>> {
    or_else(
        first_fault(sources.len(), |i: int| source_fault(sources[i])),
        if has_duplicate(source_ids(sources)) {
            Some("duplicate source ID"@)
        } else {
            None
        },
    )
}

pub open spec fn artifacts_fault(items: Seq<GeneratedArtifact>) -> Option<Seq<char>> {
    first_fault(items.len(), |i: int| artifact_fault(items[i]))
}

pub open spec fn caches_fault(items: Seq<CacheEntry>) -> Option<Seq<char>> {
    first_fault(items.len(), |i: int| cache_fault(items[i]))
}

pub open spec fn tracks_fault(tracks: Seq<Track>) -> Option<Seq<char>> {
    first_fault(tracks.len(), |i: int| track_fault(tracks, i))
}

pub open spec fn regions_fault(regions: Seq<EditRegion>) -> Option<Seq<char>> {
    first_fault(regions.len(), |i: int| region_fault(regions, i))
}

pub open spec fn sessions_fault(sessions: Seq<RecordingSessionMetadata>) -> Option<Seq<char>> {
    first_fault(sessions.len(), |i: int| session_fault(sessions, i))
}

/// The first thing wrong with a manifest of the current schema, in the order
/// the checks run.
pub open spec fn manifest_fault(m: ProjectManifest) -> Option<Seq<char>> {
    or_else(
        if m.id == 0 {
            Some("project ID cannot be nil"@)
        } else if is_blank(m.title@) {
            Some("project title cannot be empty"@)
        } else {
            or_else(frame_rate_fault(m.frame_rate), time_fault(m.duration))
        },
        or_else(
            sources_fault(m.sources@),
            or_else(
                artifacts_fault(m.artifacts@),
                or_else(
                    caches_fault(m.cache_entries@),
                    or_else(
                        tracks_fault(m.tracks@),
                        or_else(regions_fault(m.edit_regions@), sessions_fault(m.recording_sessions@)),
                    ),
                ),
            ),
        ),
    )
}

/// The manifest passes validation.
pub open spec fn manifest_is_valid(m: ProjectManifest) -> bool {
    m.schema_version == CURRENT_SCHEMA_VERSION && manifest_fault(m) is None
}

// ---------------------------------------------------------------------------
// Checks
// ---------------------------------------------------------------------------

proof fn lemma_first_fault_step(n: nat, f: spec_fn(int) -> Option<Seq<char>>)
    requires
        first_fault(n, f) is None,
    ensures
        first_fault(n + 1, f) == f(n as int),
{
}

/// Once a fault is found among the first `i + 1` items, it stays the first.
proof fn lemma_fault_at(n: nat, i: nat, f: spec_fn(int) -> Option<Seq<char>>)
    requires
        i < n,
        first_fault(i, f) is None,
        f(i as int) is Some,
    ensures
        first_fault(n, f) == f(i as int),
    decreases n,
{
    if n > i + 1 {
        lemma_fault_at((n - 1) as nat, i, f);
    }
}

proof fn lemma_seen_before_prefix(full: Seq<u128>, n: int, i: int)
    requires
        0 <= i < n <= full.len(),
    ensures
        seen_before(full.take(n), i) == seen_before(full, i),
{
    if seen_before(full, i) {
        let j = choose|j: int| 0 <= j < i && full[j] == full[i];
        assert(full.take(n)[j] == full.take(n)[i]);
    }
    if seen_before(full.take(n), i) {
        let j = choose|j: int| 0 <= j < i && full.take(n)[j] == full.take(n)[i];
        assert(full[j] == full[i]);
    }
}

fn validation(msg: &str) -> (e: ProjectError)
    ensures
        is_validation(e, msg@),
{
    ProjectError::Validation(owned(msg))
}

/// Whether `c` is white space (Unicode `White_Space`).
pub fn is_white_char(c: char) -> (b: bool)
    ensures
        b == is_white(c),
{
    ('\u{9}' <= c && c <= '\u{d}') || c == ' ' || c == '\u{85}' || c == '\u{a0}' || c
        == '\u{1680}' || ('\u{2000}' <= c && c <= '\u{200a}') || c == '\u{2028}' || c
        == '\u{2029}' || c == '\u{202f}' || c == '\u{205f}' || c == '\u{3000}'
}

/// Whether `s` is empty once trimmed.
pub fn is_blank_text(s: &str) -> (b: bool)
    ensures
        b == is_blank(s@),
{
    let cs = chars_of(s);
    let mut i: usize = 0;
    while i < cs.len()
        invariant
            cs@ == s@,
            0 <= i <= cs.len(),
            forall|k: int| 0 <= k < i ==> is_white(#[trigger] cs@[k]),
        decreases cs.len() - i,
    {
        if !is_white_char(cs[i]) {
            assert(!is_white(cs@[i as int]));
            return false;
        }
        i += 1;
    }
    true
}

impl TimeMicros {
    /// Rejects a negative time.
    pub fn validate(self) -> (r: Result<(), ProjectError>)
        ensures
            reports(r, time_fault(self)),
    {
        if self.0 < 0 {
            return Err(validation("time cannot be negative"));
        }
        Ok(())
    }
}

impl FrameRate {
    /// Rejects a zero numerator or denominator.
    pub fn validate(self) -> (r: Result<(), ProjectError>)
        ensures
            reports(r, frame_rate_fault(self)),
    {
        if self.numerator == 0 || self.denominator == 0 {
            return Err(validation("frame-rate values must be non-zero"));
        }
        Ok(())
    }
}

/// Checks that `value` is a path that stays inside the project, and returns it
/// with every `\` turned into `/`.
pub fn validate_relative_path(value: &str) -> (r: Result<String, ProjectError>)
    ensures
        r is Ok <==> stays_in_project(value@),
        r matches Ok(p) ==> p@ == slash_normalized(value@),
        r matches Err(e) ==> is_validation(e, jail_msg(value@)),
{
    match jailed_path(value) {
        Some(p) => Ok(p),
        None => Err(ProjectError::Validation(concat("path must stay inside project: ", value))),
    }
}

fn check_path(value: &String) -> (r: Result<(), ProjectError>)
    ensures
        reports(r, path_fault(value@)),
{
    match validate_relative_path(value.as_str()) {
        Ok(_) => Ok(()),
        Err(e) => Err(e),
    }
}

/// Whether `ids[i]` occurs before position `i`.
fn occurs_before(ids: &Vec<u128>, i: usize) -> (b: bool)
    requires
        i < ids.len(),
    ensures
        b == seen_before(ids@, i as int),
{
    let mut a: usize = 0;
    while a < i
        invariant
            0 <= a <= i < ids.len(),
            forall|x: int| 0 <= x < a ==> ids@[x] != ids@[i as int],
        decreases i - a,
    {
        if ids[a] == ids[i] {
            return true;
        }
        a += 1;
    }
    false
}

fn check_source(item: &SourceMedia) -> (r: Result<(), ProjectError>)
    ensures
        reports(r, source_fault(*item)),
{
    if item.id == 0 {
        return Err(validation("source ID cannot be nil"));
    }
    check_path(&item.relative_path)
}

fn check_sources(items: &Vec<SourceMedia>) -> (r: Result<(), ProjectError>)
    ensures
        reports(r, sources_fault(items@)),
{
    let ghost f = |i: int| source_fault(items@[i]);
    let mut ids: Vec<u128> = Vec::new();
    let mut i: usize = 0;
    while i < items.len()
        invariant
            0 <= i <= items.len(),
            f == (|i: int| source_fault(items@[i])),
            first_fault(i as nat, f) is None,
            ids@ == source_ids(items@).take(i as int),
        decreases items.len() - i,
    {
        proof {
            lemma_first_fault_step(i as nat, f);
        }
        let r = check_source(&items[i]);
        if r.is_err() {
            proof {
                lemma_fault_at(items@.len(), i as nat, f);
            }
            return r;
        }
        ids.push(items[i].id);
        assert(source_ids(items@).take(i + 1) == source_ids(items@).take(i as int).push(items@[i as int].id));
        i += 1;
    }
    assert(source_ids(items@).take(i as int) == source_ids(items@));
    assert(f == (|i: int| source_fault(items@[i])));
    let mut j: usize = 0;
    while j < ids.len()
        invariant
            0 <= j <= ids.len(),
            ids@ == source_ids(items@),
            f == (|i: int| source_fault(items@[i])),
            first_fault(items@.len(), f) is None,
            forall|a: int, b: int| 0 <= a < b < j ==> ids@[a] != ids@[b],
        decreases ids.len() - j,
    {
        if occurs_before(&ids, j) {
            proof {
                let a = choose|a: int| 0 <= a < j && ids@[a] == ids@[j as int];
                assert(source_ids(items@)[a] == source_ids(items@)[j as int]);
            }
            return Err(validation("duplicate source ID"));
        }
        j += 1;
    }
    Ok(())
}

fn check_artifact(item: &GeneratedArtifact) -> (r: Result<(), ProjectError>)
    ensures
        reports(r, artifact_fault(*item)),
{
    if item.id == 0 {
        return Err(validation("artifact ID cannot be nil"));
    }
    if is_blank_text(item.kind.as_str()) {
        return Err(validation("artifact kind cannot be empty"));
    }
    check_path(&item.relative_path)
}

fn check_artifacts(items: &Vec<GeneratedArtifact>) -> (r: Result<(), ProjectError>)
    ensures
        reports(r, artifacts_fault(items@)),
{
    let ghost f = |i: int| artifact_fault(items@[i]);
    let mut i: usize = 0;
    while i < items.len()
        invariant
            0 <= i <= items.len(),
            f == (|i: int| artifact_fault(items@[i])),
            first_fault(i as nat, f) is None,
        decreases items.len() - i,
    {
        proof {
            lemma_first_fault_step(i as nat, f);
        }
        let r = check_artifact(&items[i]);
        if r.is_err() {
            proof {
                lemma_fault_at(items@.len(), i as nat, f);
            }
            return r;
        }
        i += 1;
    }
    Ok(())
}

fn check_cache_entry(item: &CacheEntry) -> (r: Result<(), ProjectError>)
    ensures
        reports(r, cache_fault(*item)),
{
    if item.id == 0 {
        return Err(validation("cache entry ID cannot be nil"));
    }
    if is_blank_text(item.kind.as_str()) {
        return Err(validation("cache entry kind cannot be empty"));
    }
    check_path(&item.relative_path)
}

fn check_cache_entries(items: &Vec<CacheEntry>) -> (r: Result<(), ProjectError>)
    ensures
        reports(r, caches_fault(items@)),
{
    let ghost f = |i: int| cache_fault(items@[i]);
    let mut i: usize = 0;
    while i < items.len()
        invariant
            0 <= i <= items.len(),
            f == (|i: int| cache_fault(items@[i])),
            first_fault(i as nat, f) is None,
        decreases items.len() - i,
    {
        proof {
            lemma_first_fault_step(i as nat, f);
        }
        let r = check_cache_entry(&items[i]);
        if r.is_err() {
            proof {
                lemma_fault_at(items@.len(), i as nat, f);
            }
            return r;
        }
        i += 1;
    }
    Ok(())
}

fn check_clips(clips: &Vec<Clip>) -> (r: Result<(), ProjectError>)
    ensures
        reports(r, first_fault(clips@.len(), |k: int| clip_fault(clips@, k))),
{
    let ghost f = |k: int| clip_fault(clips@, k);
    let mut ids: Vec<u128> = Vec::new();
    let mut i: usize = 0;
    while i < clips.len()
        invariant
            0 <= i <= clips.len(),
            f == (|k: int| clip_fault(clips@, k)),
            ids@ == clip_ids(clips@).take(i as int),
            first_fault(i as nat, f) is None,
        decreases clips.len() - i,
    {
        proof {
            lemma_first_fault_step(i as nat, f);
        }
        let clip = &clips[i];
        ids.push(clip.id);
        assert(clip_ids(clips@).take(i + 1) == clip_ids(clips@).take(i as int).push(clips@[i as int].id));
        proof {
            lemma_seen_before_prefix(clip_ids(clips@), i + 1, i as int);
        }
        let r = if clip.id == 0 {
            Err(validation("clip ID cannot be nil"))
        } else if occurs_before(&ids, i) {
            Err(validation("duplicate clip ID"))
        } else if clip.source_id == 0 {
            Err(validation("clip source ID cannot be nil"))
        } else if clip.start.0 < 0 || clip.duration.0 < 0 || clip.source_offset.0 < 0 {
            Err(validation("time cannot be negative"))
        } else {
            Ok(())
        };
        if r.is_err() {
            proof {
                lemma_fault_at(clips@.len(), i as nat, f);
            }
            return r;
        }
        i += 1;
    }
    Ok(())
}

fn check_tracks(tracks: &Vec<Track>) -> (r: Result<(), ProjectError>)
    ensures
        reports(r, tracks_fault(tracks@)),
{
    let ghost f = |i: int| track_fault(tracks@, i);
    let mut ids: Vec<u128> = Vec::new();
    let mut i: usize = 0;
    while i < tracks.len()
        invariant
            0 <= i <= tracks.len(),
            f == (|i: int| track_fault(tracks@, i)),
            ids@ == track_ids(tracks@).take(i as int),
            first_fault(i as nat, f) is None,
        decreases tracks.len() - i,
    {
        proof {
            lemma_first_fault_step(i as nat, f);
        }
        let track = &tracks[i];
        ids.push(track.id);
        assert(track_ids(tracks@).take(i + 1) == track_ids(tracks@).take(i as int).push(tracks@[i as int].id));
        proof {
            lemma_seen_before_prefix(track_ids(tracks@), i + 1, i as int);
        }
        let r = if track.id == 0 {
            Err(validation("track ID cannot be nil"))
        } else if occurs_before(&ids, i) {
            Err(validation("duplicate track ID"))
        } else {
            check_clips(&track.clips)
        };
        if r.is_err() {
            proof {
                lemma_fault_at(tracks@.len(), i as nat, f);
            }
            return r;
        }
        i += 1;
    }
    Ok(())
}

fn check_regions(regions: &Vec<EditRegion>) -> (r: Result<(), ProjectError>)
    ensures
        reports(r, regions_fault(regions@)),
{
    let ghost f = |i: int| region_fault(regions@, i);
    let mut ids: Vec<u128> = Vec::new();
    let mut i: usize = 0;
    while i < regions.len()
        invariant
            0 <= i <= regions.len(),
            f == (|i: int| region_fault(regions@, i)),
            ids@ == region_ids(regions@).take(i as int),
            first_fault(i as nat, f) is None,
        decreases regions.len() - i,
    {
        proof {
            lemma_first_fault_step(i as nat, f);
        }
        let region = &regions[i];
        ids.push(region.id);
        assert(region_ids(regions@).take(i + 1) == region_ids(regions@).take(i as int).push(regions@[i as int].id));
        proof {
            lemma_seen_before_prefix(region_ids(regions@), i + 1, i as int);
        }
        let r = if region.id == 0 {
            Err(validation("edit region ID cannot be nil"))
        } else if occurs_before(&ids, i) {
            Err(validation("duplicate edit region ID"))
        } else if is_blank_text(region.kind.as_str()) {
            Err(validation("edit region kind cannot be empty"))
        } else if region.start.0 < 0 || region.duration.0 < 0 {
            Err(validation("time cannot be negative"))
        } else {
            Ok(())
        };
        if r.is_err() {
            proof {
                lemma_fault_at(regions@.len(), i as nat, f);
            }
            return r;
        }
        i += 1;
    }
    Ok(())
}

fn check_sessions(sessions: &Vec<RecordingSessionMetadata>) -> (r: Result<(), ProjectError>)
    ensures
        reports(r, sessions_fault(sessions@)),
{
    let ghost f = |i: int| session_fault(sessions@, i);
    let mut ids: Vec<u128> = Vec::new();
    let mut i: usize = 0;
    while i < sessions.len()
        invariant
            0 <= i <= sessions.len(),
            f == (|i: int| session_fault(sessions@, i)),
            ids@ == session_ids(sessions@).take(i as int),
            first_fault(i as nat, f) is None,
        decreases sessions.len() - i,
    {
        proof {
            lemma_first_fault_step(i as nat, f);
        }
        let session = &sessions[i];
        ids.push(session.id);
        assert(session_ids(sessions@).take(i + 1) == session_ids(sessions@).take(i as int).push(sessions@[i as int].id));
        proof {
            lemma_seen_before_prefix(session_ids(sessions@), i + 1, i as int);
        }
        let r = if session.id == 0 || session.qpc_frequency <= 0 {
            Err(validation("recording clock metadata is invalid"))
        } else if occurs_before(&ids, i) {
            Err(validation("duplicate recording session ID"))
        } else {
            session.paused_duration.validate()
        };
        if r.is_err() {
            proof {
                lemma_fault_at(sessions@.len(), i as nat, f);
            }
            return r;
        }
        i += 1;
    }
    Ok(())
}

impl ProjectManifest {
    /// A new, empty project of the current schema, with a fresh ID, both
    /// timestamps set to now, 30 fps, no media and default editor state.
    pub fn empty(title: &str) -> (m: Self)
        ensures
            m.schema_version == CURRENT_SCHEMA_VERSION,
            is_v4_uuid(m.id),
            m.title@ == title@,
            m.created_at == m.updated_at,
            m.frame_rate == (FrameRate { numerator: 30, denominator: 1 }),
            m.duration == TimeMicros(0),
            m.sources@.len() == 0,
            m.tracks@.len() == 0,
            m.edit_regions@.len() == 0,
            m.artifacts@.len() == 0,
            m.cache_entries@.len() == 0,
            m.recording_sessions@.len() == 0,
            m.editor@ == DEFAULT_EDITOR_JSON@,
    {
        let now = now_micros();
        ProjectManifest {
            schema_version: CURRENT_SCHEMA_VERSION,
            id: new_id(),
            title: owned(title),
            created_at: now,
            updated_at: now,
            frame_rate: FrameRate { numerator: 30, denominator: 1 },
            duration: TimeMicros(0),
            sources: Vec::new(),
            tracks: Vec::new(),
            edit_regions: Vec::new(),
            artifacts: Vec::new(),
            cache_entries: Vec::new(),
            recording_sessions: Vec::new(),
            editor: owned(DEFAULT_EDITOR_JSON),
        }
    }

    /// Checks the schema version, every ID, title, time, frame rate and
    /// stored path, and that IDs are unique where the format requires it.
    pub fn validate(&self) -> (r: Result<(), ProjectError>)
        ensures
            self.schema_version != CURRENT_SCHEMA_VERSION ==> (r matches Err(
                ProjectError::UnsupportedSchema(v),
            ) && v == self.schema_version),
            self.schema_version == CURRENT_SCHEMA_VERSION ==> reports(r, manifest_fault(*self)),
            r is Ok <==> manifest_is_valid(*self),
    {
        if self.schema_version != CURRENT_SCHEMA_VERSION {
            return Err(ProjectError::UnsupportedSchema(self.schema_version));
        }
        if self.id == 0 {
            return Err(validation("project ID cannot be nil"));
        }
        if is_blank_text(self.title.as_str()) {
            return Err(validation("project title cannot be empty"));
        }
        let r = self.frame_rate.validate();
        if r.is_err() {
            return r;
        }
        let r = self.duration.validate();
        if r.is_err() {
            return r;
        }
        let r = check_sources(&self.sources);
        if r.is_err() {
            return r;
        }
        let r = check_artifacts(&self.artifacts);
        if r.is_err() {
            return r;
        }
        let r = check_cache_entries(&self.cache_entries);
        if r.is_err() {
            return r;
        }
        let r = check_tracks(&self.tracks);
        if r.is_err() {
            return r;
        }
        let r = check_regions(&self.edit_regions);
        if r.is_err() {
            return r;
        }
        check_sessions(&self.recording_sessions)
    }
}

/// No two entries of `ids` are equal.
pub open spec fn ids_distinct(ids: Seq<u128>) -> bool {
    forall|i: int, j: int| 0 <= i < j < ids.len() ==> ids[i] != ids[j]
}

pub open spec fn clip_ok(c: Clip) -> bool {
    c.id != 0 && c.source_id != 0 && c.start.0 >= 0 && c.duration.0 >= 0 && c.source_offset.0 >= 0
}

pub open spec fn track_ok(t: Track) -> bool {
    &&& t.id != 0
    &&& ids_distinct(clip_ids(t.clips@))
    &&& forall|k: int| 0 <= k < t.clips@.len() ==> clip_ok(#[trigger] t.clips@[k])
}

/// What a valid manifest is, condition by condition: the current schema, a
/// non-nil id, a title, a non-zero frame rate and a non-negative duration;
/// sources, artifacts and cache entries with non-nil ids, kinds where they
/// have one, and paths that stay in the project (source ids distinct);
/// tracks, edit regions and recording sessions with non-nil, distinct ids,
/// clips with non-nil, distinct ids (within their track), a source, and
/// non-negative times; regions with a kind and non-negative times; sessions
/// with a positive counter frequency and a non-negative pause.
pub open spec fn manifest_conditions(m: ProjectManifest) -> bool {
    &&& m.schema_version == CURRENT_SCHEMA_VERSION
    &&& m.id != 0
    &&& !is_blank(m.title@)
    &&& m.frame_rate.numerator != 0 && m.frame_rate.denominator != 0
    &&& m.duration.0 >= 0
    &&& forall|i: int|
        0 <= i < m.sources@.len() ==> (#[trigger] m.sources@[i]).id != 0 && stays_in_project(
            m.sources@[i].relative_path@,
        )
    &&& ids_distinct(source_ids(m.sources@))
    &&& forall|i: int|
        0 <= i < m.artifacts@.len() ==> (#[trigger] m.artifacts@[i]).id != 0 && !is_blank(
            m.artifacts@[i].kind@,
        ) && stays_in_project(m.artifacts@[i].relative_path@)
    &&& forall|i: int|
        0 <= i < m.cache_entries@.len() ==> (#[trigger] m.cache_entries@[i]).id != 0 && !is_blank(
            m.cache_entries@[i].kind@,
        ) && stays_in_project(m.cache_entries@[i].relative_path@)
    &&& ids_distinct(track_ids(m.tracks@))
    &&& forall|i: int| 0 <= i < m.tracks@.len() ==> track_ok(#[trigger] m.tracks@[i])
    &&& ids_distinct(region_ids(m.edit_regions@))
    &&& forall|i: int|
        0 <= i < m.edit_regions@.len() ==> {
            let r = #[trigger] m.edit_regions@[i];
            r.id != 0 && !is_blank(r.kind@) && r.start.0 >= 0 && r.duration.0 >= 0
        }
    &&& ids_distinct(session_ids(m.recording_sessions@))
    &&& forall|i: int|
        0 <= i < m.recording_sessions@.len() ==> {
            let s = #[trigger] m.recording_sessions@[i];
            s.id != 0 && s.qpc_frequency > 0 && s.paused_duration.0 >= 0
        }
}

proof fn lemma_first_fault_none(n: nat, f: spec_fn(int) -> Option<Seq<char>>)
    ensures
        first_fault(n, f) is None <==> forall|i: int| 0 <= i < n ==> #[trigger] f(i) is None,
    decreases n,
{
    if n > 0 {
        lemma_first_fault_none((n - 1) as nat, f);
    }
}

proof fn lemma_distinct(ids: Seq<u128>)
    ensures
        (forall|i: int| 0 <= i < ids.len() ==> !#[trigger] seen_before(ids, i)) <==> ids_distinct(ids),
        !has_duplicate(ids) <==> ids_distinct(ids),
{
    if ids_distinct(ids) {
        assert forall|i: int| 0 <= i < ids.len() implies !#[trigger] seen_before(ids, i) by {
            if seen_before(ids, i) {
                let j = choose|j: int| 0 <= j < i && ids[j] == ids[i];
                assert(ids[j] != ids[i]);
            }
        }
    } else {
        let (i, j) = choose|i: int, j: int| 0 <= i < j < ids.len() && ids[i] == ids[j];
        assert(seen_before(ids, j));
    }
}

proof fn lemma_track_ok(tracks: Seq<Track>, i: int)
    requires
        0 <= i < tracks.len(),
    ensures
        track_fault(tracks, i) is None <==> (tracks[i].id != 0 && !seen_before(track_ids(tracks), i)
            && ids_distinct(clip_ids(tracks[i].clips@)) && forall|k: int|
            0 <= k < tracks[i].clips@.len() ==> clip_ok(#[trigger] tracks[i].clips@[k])),
{
    let clips = tracks[i].clips@;
    let f = |k: int| clip_fault(clips, k);
    assert((|k: int| clip_fault(tracks[i].clips@, k)) =~= f);
    lemma_first_fault_none(clips.len(), f);
    lemma_distinct(clip_ids(clips));
    assert forall|k: int| 0 <= k < clips.len() implies (#[trigger] f(k) is None) == (clip_ok(clips[k])
        && !seen_before(clip_ids(clips), k)) by {}
    if first_fault(clips.len(), f) is None {
        assert forall|k: int| 0 <= k < clips.len() implies clip_ok(#[trigger] clips[k]) by {
            assert(f(k) is None);
        }
        assert forall|k: int| 0 <= k < clips.len() implies !#[trigger] seen_before(clip_ids(clips), k) by {
            assert(f(k) is None);
        }
    }
    if ids_distinct(clip_ids(clips)) && forall|k: int| 0 <= k < clips.len() ==> clip_ok(#[trigger] clips[k]) {
        assert forall|k: int| 0 <= k < clips.len() implies #[trigger] f(k) is None by {
            assert(clip_ok(clips[k]));
            assert(!seen_before(clip_ids(clips), k));
        }
    }
}

/// A manifest passes validation exactly when it meets every condition of
/// `manifest_conditions`.
pub proof fn lemma_manifest_validity(m: ProjectManifest)
    ensures
        manifest_is_valid(m) <==> manifest_conditions(m),
{
    let srcs = m.sources@;
    let fs = |i: int| source_fault(srcs[i]);
    assert((|i: int| source_fault(m.sources@[i])) =~= fs);
    lemma_first_fault_none(srcs.len(), fs);
    lemma_distinct(source_ids(srcs));
    let arts = m.artifacts@;
    let fa = |i: int| artifact_fault(arts[i]);
    assert((|i: int| artifact_fault(m.artifacts@[i])) =~= fa);
    lemma_first_fault_none(arts.len(), fa);
    let cs = m.cache_entries@;
    let fc = |i: int| cache_fault(cs[i]);
    assert((|i: int| cache_fault(m.cache_entries@[i])) =~= fc);
    lemma_first_fault_none(cs.len(), fc);
    let ts = m.tracks@;
    let ft = |i: int| track_fault(ts, i);
    assert((|i: int| track_fault(m.tracks@, i)) =~= ft);
    lemma_first_fault_none(ts.len(), ft);
    lemma_distinct(track_ids(ts));
    assert forall|i: int| 0 <= i < ts.len() implies (#[trigger] ft(i) is None) == (track_ok(ts[i])
        && !seen_before(track_ids(ts), i)) by {
        lemma_track_ok(ts, i);
    }
    let rs = m.edit_regions@;
    let fr = |i: int| region_fault(rs, i);
    assert((|i: int| region_fault(m.edit_regions@, i)) =~= fr);
    lemma_first_fault_none(rs.len(), fr);
    lemma_distinct(region_ids(rs));
    let ss = m.recording_sessions@;
    let fss = |i: int| session_fault(ss, i);
    assert((|i: int| session_fault(m.recording_sessions@, i)) =~= fss);
    lemma_first_fault_none(ss.len(), fss);
    lemma_distinct(session_ids(ss));
    if manifest_is_valid(m) {
        assert forall|i: int| 0 <= i < ts.len() implies track_ok(#[trigger] ts[i]) by {
            assert(ft(i) is None);
        }
        assert forall|i: int| 0 <= i < srcs.len() implies (#[trigger] srcs[i]).id != 0
            && stays_in_project(srcs[i].relative_path@) by {
            assert(fs(i) is None);
        }
        assert forall|i: int| 0 <= i < arts.len() implies (#[trigger] arts[i]).id != 0 && !is_blank(
            arts[i].kind@,
        ) && stays_in_project(arts[i].relative_path@) by {
            assert(fa(i) is None);
        }
        assert forall|i: int| 0 <= i < cs.len() implies (#[trigger] cs[i]).id != 0 && !is_blank(
            cs[i].kind@,
        ) && stays_in_project(cs[i].relative_path@) by {
            assert(fc(i) is None);
        }
        assert forall|i: int| 0 <= i < rs.len() implies {
            let r = #[trigger] rs[i];
            r.id != 0 && !is_blank(r.kind@) && r.start.0 >= 0 && r.duration.0 >= 0
        } by {
            assert(fr(i) is None);
        }
        assert forall|i: int| 0 <= i < ss.len() implies {
            let s = #[trigger] ss[i];
            s.id != 0 && s.qpc_frequency > 0 && s.paused_duration.0 >= 0
        } by {
            assert(fss(i) is None);
        }
        assert(ids_distinct(source_ids(srcs)));
        assert forall|i: int| 0 <= i < ts.len() implies !#[trigger] seen_before(track_ids(ts), i) by {
            assert(ft(i) is None);
        }
        assert forall|i: int| 0 <= i < rs.len() implies !#[trigger] seen_before(region_ids(rs), i) by {
            assert(fr(i) is None);
        }
        assert forall|i: int| 0 <= i < ss.len() implies !#[trigger] seen_before(session_ids(ss), i) by {
            assert(fss(i) is None);
        }
        assert(ids_distinct(track_ids(ts)));
        assert(ids_distinct(region_ids(rs)));
        assert(ids_distinct(session_ids(ss)));
        assert(manifest_conditions(m));
    }
    if manifest_conditions(m) {
        assert forall|i: int| 0 <= i < ts.len() implies #[trigger] ft(i) is None by {
            assert(track_ok(ts[i]));
        }
        assert forall|i: int| 0 <= i < srcs.len() implies #[trigger] fs(i) is None by {
            assert(srcs[i].id != 0);
        }
        assert forall|i: int| 0 <= i < arts.len() implies #[trigger] fa(i) is None by {
            assert(arts[i].id != 0);
        }
        assert forall|i: int| 0 <= i < cs.len() implies #[trigger] fc(i) is None by {
            assert(cs[i].id != 0);
        }
        assert forall|i: int| 0 <= i < rs.len() implies #[trigger] fr(i) is None by {
            assert(rs[i].id != 0);
        }
        assert forall|i: int| 0 <= i < ss.len() implies #[trigger] fss(i) is None by {
            assert(ss[i].id != 0);
        }
        assert(sources_fault(srcs) is None);
        assert(artifacts_fault(arts) is None);
        assert(caches_fault(cs) is None);
        assert(tracks_fault(ts) is None);
        assert(regions_fault(rs) is None);
        assert(sessions_fault(ss) is None);
        assert(manifest_is_valid(m));
    }
}

/// A freshly created manifest is valid once its title is not blank.
pub proof fn lemma_empty_manifest_is_valid(m: ProjectManifest)
    requires
        m.schema_version == CURRENT_SCHEMA_VERSION,
        is_v4_uuid(m.id),
        !is_blank(m.title@),
        m.frame_rate == (FrameRate { numerator: 30, denominator: 1 }),
        m.duration == TimeMicros(0),
        m.sources@.len() == 0,
        m.tracks@.len() == 0,
        m.edit_regions@.len() == 0,
        m.artifacts@.len() == 0,
        m.cache_entries@.len() == 0,
        m.recording_sessions@.len() == 0,
    ensures
        manifest_is_valid(m),
{
    lemma_v4_is_not_nil(m.id);
    assert(!has_duplicate(source_ids(m.sources@)));
}

} // verus!

verus! {

pub open spec fn project_error_text(e: ProjectError) -> Seq<char> {
    match e {
        ProjectError::Io(d) => "I/O error: "@ + d@,
        ProjectError::Json(d) => "manifest JSON is invalid: "@ + d@,
        ProjectError::Validation(d) => "project validation failed: "@ + d@,
        ProjectError::UnsupportedSchema(v) => "unsupported schema version "@ + crate::text::decimal(
            v as nat,
        ),
    }
}

impl ProjectError {
    /// The message shown to the user.
    pub fn message(&self) -> (m: String)
        ensures
            m@ == project_error_text(*self),
    {
        match self {
            ProjectError::Io(d) => concat("I/O error: ", d.as_str()),
            ProjectError::Json(d) => concat("manifest JSON is invalid: ", d.as_str()),
            ProjectError::Validation(d) => concat("project validation failed: ", d.as_str()),
            ProjectError::UnsupportedSchema(v) => {
                let digits = crate::text::decimal_string(*v as u64);
                concat("unsupported schema version ", digits.as_str())
            },
        }
    }
}

} // verus!
