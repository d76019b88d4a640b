//! Migration of stored project manifests to the current schema: older
//! documents get the current member names, the current version and the
//! lists that later versions added; documents of the current version still
//! get snake_case member names repaired; documents from a newer version
//! are refused. Rounding of fractional microsecond values is left to the
//! host, which reads the numbers.
use vstd::prelude::*;
use crate::json::{
    field, find_member, reads_with, remove_member, set_member, take_member, JsonNumber, JsonValue,
};
use crate::project::{ProjectError, CURRENT_SCHEMA_VERSION};
use crate::session::{trim_text, trimmed};
use crate::text::{owned, parse_unsigned, parse_unsigned_spec, string_from_chars, UnsignedParse};

verus! {

// ---------------------------------------------------------------------------
// Renaming members
// ---------------------------------------------------------------------------

/// How the members read after member `from` is renamed `to`: when `to`
/// exists already, `from` is dropped; otherwise `from`'s value moves to
/// `to`.
pub open spec fn moved(f: spec_fn(Seq<char>) -> Option<JsonValue>, from: Seq<char>, to: Seq<char>) -> spec_fn(
    Seq<char>,
) -> Option<JsonValue> {
    |k: Seq<char>|
        if f(to) is Some {
            if k == from {
                None
            } else {
                f(k)
            }
        } else if f(from) is Some {
            if k == to {
                f(from)
            } else if k == from {
                None
            } else {
                f(k)
            }
        } else {
            f(k)
        }
}

/// How the members read after the renames of `table`, in order.
pub open spec fn moves(f: spec_fn(Seq<char>) -> Option<JsonValue>, table: Seq<(Seq<char>, Seq<char>)>) -> spec_fn(
    Seq<char>,
) -> Option<JsonValue>
    decreases table.len(),
{
    if table.len() == 0 {
        f
    } else {
        moved(moves(f, table.drop_last()), table.last().0, table.last().1)
    }
}

/// How a member list reads.
pub open spec fn reading(members: Seq<(String, JsonValue)>) -> spec_fn(Seq<char>) -> Option<JsonValue> {
    |k: Seq<char>| field(members, k)
}

/// `after` reads like `f`.
pub open spec fn reads_as(after: Seq<(String, JsonValue)>, f: spec_fn(Seq<char>) -> Option<JsonValue>) -> bool {
    forall|k: Seq<char>| #[trigger] field(after, k) == f(k)
}

/// Renames member `from` to `to`, keeping a `to` that exists already.
pub fn move_member(members: Vec<(String, JsonValue)>, from: &str, to: &str) -> (out: Vec<
    (String, JsonValue),
>)
    ensures
        reads_as(out@, moved(reading(members@), from@, to@)),
{
    let ghost f = reading(members@);
    if find_member(&members, to).is_some() {
        proof {
            crate::json::lemma_last_position(members@, to@);
        }
        let out = remove_member(members, from);
        assert forall|k: Seq<char>| #[trigger] field(out@, k) == moved(f, from@, to@)(k) by {}
        return out;
    }
    proof {
        crate::json::lemma_last_position(members@, to@);
    }
    let (value, rest) = take_member(members, from);
    match value {
        Some(v) => {
            let ghost vv = v;
            let out = set_member(rest, to, v);
            assert forall|k: Seq<char>| #[trigger] field(out@, k) == moved(f, from@, to@)(k) by {
                assert(field(rest@, k) == if k == from@ {
                    None
                } else {
                    field(members@, k)
                });
            }
            out
        },
        None => {
            assert forall|k: Seq<char>| #[trigger] field(rest@, k) == moved(f, from@, to@)(k) by {
                assert(field(rest@, k) == if k == from@ {
                    None
                } else {
                    field(members@, k)
                });
            }
            rest
        },
    }
}

/// The renames of `table` as texts.
pub open spec fn table_view(table: Seq<(&str, &str)>) -> Seq<(Seq<char>, Seq<char>)> {
    table.map_values(|p: (&str, &str)| (p.0@, p.1@))
}

/// Applies the renames of `table`, in order.
pub fn move_members(members: Vec<(String, JsonValue)>, table: &Vec<(&str, &str)>) -> (out: Vec<
    (String, JsonValue),
>)
    ensures
        reads_as(out@, moves(reading(members@), table_view(table@))),
{
    let ghost f = reading(members@);
    let mut out = members;
    let mut i: usize = 0;
    assert(table_view(table@.take(0)) =~= seq![]);
    while i < table.len()
        invariant
            0 <= i <= table.len(),
            reads_as(out@, moves(f, table_view(table@.take(i as int)))),
        decreases table.len() - i,
    {
        let ghost before = out@;
        let (from, to) = table[i];
        out = move_member(out, from, to);
        proof {
            let tv = table_view(table@.take(i + 1));
            assert(tv.drop_last() =~= table_view(table@.take(i as int)));
            assert(tv.last() == (from@, to@));
            assert forall|k: Seq<char>| #[trigger] field(out@, k) == moves(f, tv)(k) by {
                assert forall|j: Seq<char>| #[trigger] reading(before)(j) == moves(
                    f,
                    table_view(table@.take(i as int)),
                )(j) by {
                    assert(field(before, j) == moves(f, table_view(table@.take(i as int)))(j));
                }
                assert(reading(before) =~= moves(f, table_view(table@.take(i as int))));
            }
        }
        i += 1;
    }
    assert(table@.take(table.len() as int) =~= table@);
    out
}

} // verus!

verus! {

// ---------------------------------------------------------------------------
// Renames inside nested values
// ---------------------------------------------------------------------------

/// `after` is the object `before` with the renames of `table` applied; a
/// value that is no object stays as it is.
pub open spec fn object_renamed(before: JsonValue, after: JsonValue, table: Seq<(Seq<char>, Seq<char>)>) -> bool {
    match before {
        JsonValue::Object(m) => after matches JsonValue::Object(m2) && reads_as(
            m2@,
            moves(reading(m@), table),
        ),
        _ => after == before,
    }
}

/// `after` is the array `before` with the renames of `table` applied to each
/// object in it; a value that is no array stays as it is.
pub open spec fn objects_renamed(before: JsonValue, after: JsonValue, table: Seq<(Seq<char>, Seq<char>)>) -> bool {
    match before {
        JsonValue::Array(xs) => after matches JsonValue::Array(ys) && ys@.len() == xs@.len()
            && forall|i: int| 0 <= i < xs@.len() ==> object_renamed(#[trigger] xs@[i], ys@[i], table),
        _ => after == before,
    }
}

/// Both absent, or both present and related by `objects_renamed`.
pub open spec fn opt_objects_renamed(before: Option<JsonValue>, after: Option<JsonValue>, table: Seq<(Seq<char>, Seq<char>)>) -> bool {
    match (before, after) {
        (None, None) => true,
        (Some(b), Some(a)) => objects_renamed(b, a, table),
        _ => false,
    }
}

/// Both absent, or both present and related by `object_renamed`.
pub open spec fn opt_object_renamed(before: Option<JsonValue>, after: Option<JsonValue>, table: Seq<(Seq<char>, Seq<char>)>) -> bool {
    match (before, after) {
        (None, None) => true,
        (Some(b), Some(a)) => object_renamed(b, a, table),
        _ => false,
    }
}

pub fn rename_object(v: JsonValue, table: &Vec<(&str, &str)>) -> (r: JsonValue)
    ensures
        object_renamed(v, r, table_view(table@)),
{
    match v {
        JsonValue::Object(m) => JsonValue::Object(move_members(m, table)),
        other => other,
    }
}

pub fn rename_each_object(v: JsonValue, table: &Vec<(&str, &str)>) -> (r: JsonValue)
    ensures
        objects_renamed(v, r, table_view(table@)),
{
    match v {
        JsonValue::Array(xs) => {
            let ghost all = xs@;
            let mut rest = xs;
            let mut out: Vec<JsonValue> = Vec::new();
            while rest.len() > 0
                invariant
                    all.len() == out@.len() + rest@.len(),
                    rest@ == all.skip(out@.len() as int),
                    forall|i: int|
                        0 <= i < out@.len() ==> object_renamed(
                            #[trigger] all[i],
                            out@[i],
                            table_view(table@),
                        ),
                decreases rest.len(),
            {
                let x = rest.remove(0);
                assert(x == all[out@.len() as int]);
                assert(rest@ =~= all.skip(out@.len() as int + 1));
                let y = rename_object(x, table);
                out.push(y);
            }
            JsonValue::Array(out)
        },
        other => other,
    }
}

/// `after` is the track `before` with its clips renamed; anything but an
/// object stays as it is.
pub open spec fn track_renamed(before: JsonValue, after: JsonValue) -> bool {
    match before {
        JsonValue::Object(m) => after matches JsonValue::Object(m2) && (forall|k: Seq<char>|
            k != "clips"@ ==> #[trigger] field(m2@, k) == field(m@, k)) && opt_objects_renamed(
            field(m@, "clips"@),
            field(m2@, "clips"@),
            clip_renames(),
        ),
        _ => after == before,
    }
}

/// `after` is the array of tracks `before` with each track's clips renamed.
pub open spec fn tracks_renamed(before: JsonValue, after: JsonValue) -> bool {
    match before {
        JsonValue::Array(xs) => after matches JsonValue::Array(ys) && ys@.len() == xs@.len()
            && forall|i: int| 0 <= i < xs@.len() ==> track_renamed(#[trigger] xs@[i], ys@[i]),
        _ => after == before,
    }
}

pub open spec fn opt_tracks_renamed(before: Option<JsonValue>, after: Option<JsonValue>) -> bool {
    match (before, after) {
        (None, None) => true,
        (Some(b), Some(a)) => tracks_renamed(b, a),
        _ => false,
    }
}

/// Applies `rename_each_object` to member `key`, if there is one.
fn update_each_object(members: Vec<(String, JsonValue)>, key: &str, table: &Vec<(&str, &str)>) -> (out:
    Vec<(String, JsonValue)>)
    ensures
        forall|k: Seq<char>| k != key@ ==> #[trigger] field(out@, k) == field(members@, k),
        opt_objects_renamed(field(members@, key@), field(out@, key@), table_view(table@)),
{
    let (value, rest) = take_member(members, key);
    match value {
        Some(v) => {
            let r = rename_each_object(v, table);
            let out = set_member(rest, key, r);
            assert forall|k: Seq<char>| k != key@ implies #[trigger] field(out@, k) == field(members@, k) by {
                assert(field(rest@, k) == field(members@, k));
            }
            out
        },
        None => {
            assert forall|k: Seq<char>| k != key@ implies #[trigger] field(rest@, k) == field(members@, k) by {}
            assert(field(rest@, key@) is None);
            rest
        },
    }
}

/// Applies `rename_object` to member `key`, if there is one.
fn update_object(members: Vec<(String, JsonValue)>, key: &str, table: &Vec<(&str, &str)>) -> (out:
    Vec<(String, JsonValue)>)
    ensures
        forall|k: Seq<char>| k != key@ ==> #[trigger] field(out@, k) == field(members@, k),
        opt_object_renamed(field(members@, key@), field(out@, key@), table_view(table@)),
{
    let (value, rest) = take_member(members, key);
    match value {
        Some(v) => {
            let r = rename_object(v, table);
            let out = set_member(rest, key, r);
            assert forall|k: Seq<char>| k != key@ implies #[trigger] field(out@, k) == field(members@, k) by {
                assert(field(rest@, k) == field(members@, k));
            }
            out
        },
        None => {
            assert forall|k: Seq<char>| k != key@ implies #[trigger] field(rest@, k) == field(members@, k) by {}
            assert(field(rest@, key@) is None);
            rest
        },
    }
}

pub fn rename_track(v: JsonValue) -> (r: JsonValue)
    ensures
        track_renamed(v, r),
{
    match v {
        JsonValue::Object(m) => {
            let table = clip_table();
            let m2 = update_each_object(m, "clips", &table);
            JsonValue::Object(m2)
        },
        other => other,
    }
}

pub fn rename_tracks(v: JsonValue) -> (r: JsonValue)
    ensures
        tracks_renamed(v, r),
{
    match v {
        JsonValue::Array(xs) => {
            let ghost all = xs@;
            let mut rest = xs;
            let mut out: Vec<JsonValue> = Vec::new();
            while rest.len() > 0
                invariant
                    all.len() == out@.len() + rest@.len(),
                    rest@ == all.skip(out@.len() as int),
                    forall|i: int| 0 <= i < out@.len() ==> track_renamed(#[trigger] all[i], out@[i]),
                decreases rest.len(),
            {
                let x = rest.remove(0);
                assert(x == all[out@.len() as int]);
                assert(rest@ =~= all.skip(out@.len() as int + 1));
                let y = rename_track(x);
                out.push(y);
            }
            JsonValue::Array(out)
        },
        other => other,
    }
}

/// Applies `rename_tracks` to member `key`, if there is one.
fn update_tracks(members: Vec<(String, JsonValue)>, key: &str) -> (out: Vec<(String, JsonValue)>)
    ensures
        forall|k: Seq<char>| k != key@ ==> #[trigger] field(out@, k) == field(members@, k),
        opt_tracks_renamed(field(members@, key@), field(out@, key@)),
{
    let (value, rest) = take_member(members, key);
    match value {
        Some(v) => {
            let r = rename_tracks(v);
            let out = set_member(rest, key, r);
            assert forall|k: Seq<char>| k != key@ implies #[trigger] field(out@, k) == field(members@, k) by {
                assert(field(rest@, k) == field(members@, k));
            }
            out
        },
        None => {
            assert forall|k: Seq<char>| k != key@ implies #[trigger] field(rest@, k) == field(members@, k) by {}
            assert(field(rest@, key@) is None);
            rest
        },
    }
}

// ---------------------------------------------------------------------------
// The rename tables
// ---------------------------------------------------------------------------

pub open spec fn root_renames() -> Seq<(Seq<char>, Seq<char>)> {
    seq![
        ("schema_version"@, "schemaVersion"@),
        ("created_at"@, "createdAt"@),
        ("updated_at"@, "updatedAt"@),
        ("frame_rate"@, "frameRate"@),
        ("edit_regions"@, "editRegions"@),
        ("cache_entries"@, "cacheEntries"@),
        ("recording_sessions"@, "recordingSessions"@),
    ]
}

pub open spec fn path_renames() -> Seq<(Seq<char>, Seq<char>)> {
    seq![("relative_path"@, "relativePath"@)]
}

pub open spec fn clip_renames() -> Seq<(Seq<char>, Seq<char>)> {
    seq![("source_id"@, "sourceId"@), ("source_offset"@, "sourceOffset"@)]
}

pub open spec fn session_renames() -> Seq<(Seq<char>, Seq<char>)> {
    seq![
        ("wall_time_utc"@, "wallTimeUtc"@),
        ("qpc_origin_ticks"@, "qpcOriginTicks"@),
        ("qpc_frequency"@, "qpcFrequency"@),
        ("paused_duration"@, "pausedDuration"@),
    ]
}

/// Editor member names of other writers and their current names.
pub open spec fn editor_renames() -> Seq<(Seq<char>, Seq<char>)> {
    seq![
        ("zoom_regions"@, "zooms"@),
        ("zoomRegions"@, "zooms"@),
        ("clip_regions"@, "clips"@),
        ("clipRegions"@, "clips"@),
        ("trim_regions"@, "trims"@),
        ("trimRegions"@, "trims"@),
        ("speed_regions"@, "speeds"@),
        ("speedRegions"@, "speeds"@),
        ("auto_captions"@, "captions"@),
        ("autoCaptions"@, "captions"@),
        ("annotation_regions"@, "annotations"@),
        ("annotationRegions"@, "annotations"@),
        ("audio_regions"@, "audioRegions"@),
    ]
}

fn root_table() -> (t: Vec<(&'static str, &'static str)>)
    ensures
        table_view(t@) == root_renames(),
{
    let t = vec![
        ("schema_version", "schemaVersion"),
        ("created_at", "createdAt"),
        ("updated_at", "updatedAt"),
        ("frame_rate", "frameRate"),
        ("edit_regions", "editRegions"),
        ("cache_entries", "cacheEntries"),
        ("recording_sessions", "recordingSessions"),
    ];
    assert(table_view(t@) =~= root_renames());
    t
}

fn path_table() -> (t: Vec<(&'static str, &'static str)>)
    ensures
        table_view(t@) == path_renames(),
{
    let t = vec![("relative_path", "relativePath")];
    assert(table_view(t@) =~= path_renames());
    t
}

fn clip_table() -> (t: Vec<(&'static str, &'static str)>)
    ensures
        table_view(t@) == clip_renames(),
{
    let t = vec![("source_id", "sourceId"), ("source_offset", "sourceOffset")];
    assert(table_view(t@) =~= clip_renames());
    t
}

fn session_table() -> (t: Vec<(&'static str, &'static str)>)
    ensures
        table_view(t@) == session_renames(),
{
    let t = vec![
        ("wall_time_utc", "wallTimeUtc"),
        ("qpc_origin_ticks", "qpcOriginTicks"),
        ("qpc_frequency", "qpcFrequency"),
        ("paused_duration", "pausedDuration"),
    ];
    assert(table_view(t@) =~= session_renames());
    t
}

fn editor_table() -> (t: Vec<(&'static str, &'static str)>)
    ensures
        table_view(t@) == editor_renames(),
{
    let t = vec![
        ("zoom_regions", "zooms"),
        ("zoomRegions", "zooms"),
        ("clip_regions", "clips"),
        ("clipRegions", "clips"),
        ("trim_regions", "trims"),
        ("trimRegions", "trims"),
        ("speed_regions", "speeds"),
        ("speedRegions", "speeds"),
        ("auto_captions", "captions"),
        ("autoCaptions", "captions"),
        ("annotation_regions", "annotations"),
        ("annotationRegions", "annotations"),
        ("audio_regions", "audioRegions"),
    ];
    assert(table_view(t@) =~= editor_renames());
    t
}

} // verus!

verus! {

// ---------------------------------------------------------------------------
// The whole manifest
// ---------------------------------------------------------------------------

/// The member names the migration treats apart can be told apart.
proof fn lemma_member_names_differ()
    ensures
        "schema_version"@.len() == 14 && "schema_version"@[0] == 's',
        "schemaVersion"@.len() == 13 && "schemaVersion"@[0] == 's',
        "sources"@.len() == 7 && "sources"@[0] == 's',
        "tracks"@.len() == 6 && "tracks"@[0] == 't',
        "editRegions"@.len() == 11 && "editRegions"@[0] == 'e',
        "artifacts"@.len() == 9 && "artifacts"@[0] == 'a',
        "cacheEntries"@.len() == 12 && "cacheEntries"@[0] == 'c',
        "recordingSessions"@.len() == 17 && "recordingSessions"@[0] == 'r',
        "editor"@.len() == 6 && "editor"@[0] == 'e',
{
    reveal_strlit("schema_version");
    reveal_strlit("schemaVersion");
    reveal_strlit("sources");
    reveal_strlit("tracks");
    reveal_strlit("editRegions");
    reveal_strlit("artifacts");
    reveal_strlit("cacheEntries");
    reveal_strlit("recordingSessions");
    reveal_strlit("editor");
}

/// How member `k` of a manifest relates before and after the nested
/// renames: sources, artifacts and cache entries get `relativePath`,
/// recording sessions their clock names, each track's clips their source
/// names, and the editor the current region names.
pub open spec fn nested_renamed(k: Seq<char>, before: Option<JsonValue>, after: Option<JsonValue>) -> bool {
    if k == "sources"@ || k == "artifacts"@ || k == "cacheEntries"@ {
        opt_objects_renamed(before, after, path_renames())
    } else if k == "recordingSessions"@ {
        opt_objects_renamed(before, after, session_renames())
    } else if k == "tracks"@ {
        opt_tracks_renamed(before, after)
    } else if k == "editor"@ {
        opt_object_renamed(before, after, editor_renames())
    } else {
        after == before
    }
}

/// The manifest members `after` are `before` with every old member name
/// replaced, at the top and inside.
pub open spec fn keys_normalized(before: Seq<(String, JsonValue)>, after: Seq<(String, JsonValue)>) -> bool {
    forall|k: Seq<char>|
        nested_renamed(k, moves(reading(before), root_renames())(k), #[trigger] field(after, k))
}

/// Gives every member of a manifest its current name.
pub fn normalize_manifest_keys(members: Vec<(String, JsonValue)>) -> (out: Vec<(String, JsonValue)>)
    ensures
        keys_normalized(members@, out@),
{
    proof {
        lemma_member_names_differ();
    }
    let ghost f = moves(reading(members@), root_renames());
    let m1 = move_members(members, &root_table());
    let paths = path_table();
    let m2 = update_each_object(m1, "sources", &paths);
    let m3 = update_tracks(m2, "tracks");
    let m4 = update_each_object(m3, "artifacts", &paths);
    let m5 = update_each_object(m4, "cacheEntries", &paths);
    let m6 = update_each_object(m5, "recordingSessions", &session_table());
    let m7 = update_object(m6, "editor", &editor_table());
    assert forall|k: Seq<char>| nested_renamed(k, f(k), #[trigger] field(m7@, k)) by {
        assert(field(m1@, k) == f(k));
    }
    m7
}

/// The version a stored value gives, as `as_u64` or a trimmed decimal text
/// reads it; zero for anything else.
pub open spec fn version_value(v: Option<JsonValue>) -> u64 {
    match v {
        Some(JsonValue::Number(JsonNumber::UInt(n))) => n,
        Some(JsonValue::Number(JsonNumber::Int(i))) => if i >= 0 {
            i as u64
        } else {
            0
        },
        Some(JsonValue::Text(s)) => match parse_unsigned_spec(trimmed(s@), u64::MAX as nat) {
            UnsignedParse::Value(n) => n,
            _ => 0,
        },
        _ => 0,
    }
}

/// The schema version a stored manifest declares, under its current or its
/// old member name, saturated to `u32::MAX` when it does not fit; zero when
/// it declares none.
pub open spec fn manifest_version(value: JsonValue) -> u32 {
    match value {
        JsonValue::Object(m) => members_version(m@),
        _ => 0,
    }
}

/// The schema version the members of a manifest declare.
pub open spec fn members_version(m: Seq<(String, JsonValue)>) -> u32 {
    let v = if field(m, "schemaVersion"@) is Some {
        field(m, "schemaVersion"@)
    } else {
        field(m, "schema_version"@)
    };
    if version_value(v) > u32::MAX {
        u32::MAX
    } else {
        version_value(v) as u32
    }
}

fn version_in(v: &JsonValue) -> (n: u64)
    ensures
        n == version_value(Some(*v)),
{
    match v {
        JsonValue::Number(JsonNumber::UInt(n)) => *n,
        JsonValue::Number(JsonNumber::Int(i)) => if *i >= 0 {
            *i as u64
        } else {
            0
        },
        JsonValue::Text(s) => {
            let t = trim_text(s.as_str());
            let text = string_from_chars(&t);
            match parse_unsigned(text.as_str(), u64::MAX) {
                UnsignedParse::Value(n) => n,
                _ => 0,
            }
        },
        _ => 0,
    }
}

/// The schema version a stored manifest declares.
pub fn declared_version(value: &JsonValue) -> (v: u32)
    ensures
        v == manifest_version(*value),
{
    match value {
        JsonValue::Object(m) => {
            let n: u64 = match find_member(m, "schemaVersion") {
                Some(i) => {
                    proof {
                        crate::json::lemma_last_position(m@, "schemaVersion"@);
                    }
                    version_in(&m[i].1)
                },
                None => {
                    proof {
                        crate::json::lemma_last_position(m@, "schemaVersion"@);
                    }
                    match find_member(m, "schema_version") {
                        Some(j) => {
                            proof {
                                crate::json::lemma_last_position(m@, "schema_version"@);
                            }
                            version_in(&m[j].1)
                        },
                        None => {
                            proof {
                                crate::json::lemma_last_position(m@, "schema_version"@);
                            }
                            0
                        },
                    }
                },
            };
            if n > 0xFFFF_FFFFu64 {
                u32::MAX
            } else {
                n as u32
            }
        },
        _ => 0,
    }
}

/// The lists every current manifest has.
pub open spec fn is_list_member(k: Seq<char>) -> bool {
    k == "sources"@ || k == "tracks"@ || k == "editRegions"@ || k == "artifacts"@ || k
        == "cacheEntries"@ || k == "recordingSessions"@
}

/// An old manifest brought to the current schema: names normalised, the old
/// version member gone, the current version set, and every list the
/// current schema has present (empty when the old one lacked it).
pub open spec fn upgraded(before: Seq<(String, JsonValue)>, after: Seq<(String, JsonValue)>) -> bool {
    forall|k: Seq<char>|
        #![trigger field(after, k)]
        if k == "schema_version"@ {
            field(after, k) is None
        } else if k == "schemaVersion"@ {
            field(after, k) == Some(
                JsonValue::Number(JsonNumber::UInt(CURRENT_SCHEMA_VERSION as u64)),
            )
        } else if is_list_member(k) && moves(reading(before), root_renames())(k) is None {
            field(after, k) matches Some(JsonValue::Array(xs)) && xs@.len() == 0
        } else {
            nested_renamed(k, moves(reading(before), root_renames())(k), field(after, k))
        }
}

fn with_list(members: Vec<(String, JsonValue)>, key: &str) -> (out: Vec<(String, JsonValue)>)
    ensures
        forall|k: Seq<char>| k != key@ ==> #[trigger] field(out@, k) == field(members@, k),
        field(members@, key@) is Some ==> field(out@, key@) == field(members@, key@),
        field(members@, key@) is None ==> (field(out@, key@) matches Some(JsonValue::Array(xs))
            && xs@.len() == 0),
{
    if find_member(&members, key).is_some() {
        proof {
            crate::json::lemma_last_position(members@, key@);
        }
        return members;
    }
    proof {
        crate::json::lemma_last_position(members@, key@);
    }
    let out = set_member(members, key, JsonValue::Array(Vec::new()));
    assert forall|k: Seq<char>| k != key@ implies #[trigger] field(out@, k) == field(members@, k) by {}
    assert(field(out@, key@) is Some);
    out
}

/// Brings a stored manifest to the current schema (see `upgraded` and
/// `keys_normalized`); a manifest from a newer version is refused.
pub fn migrate(value: JsonValue) -> (r: Result<JsonValue, ProjectError>)
    ensures
        manifest_version(value) <= 1 ==> match value {
            JsonValue::Object(m) => r matches Ok(JsonValue::Object(m2)) && upgraded(m@, m2@),
            _ => r matches Err(ProjectError::Validation(e)) && e@
                == "manifest root must be an object"@,
        },
        manifest_version(value) == CURRENT_SCHEMA_VERSION ==> match value {
            JsonValue::Object(m) => r matches Ok(JsonValue::Object(m2)) && keys_normalized(m@, m2@),
            _ => r == Ok::<JsonValue, ProjectError>(value),
        },
        manifest_version(value) > CURRENT_SCHEMA_VERSION ==> (r matches Err(
            ProjectError::UnsupportedSchema(v),
        ) && v == manifest_version(value)),
{
    let version = declared_version(&value);
    if version > CURRENT_SCHEMA_VERSION {
        return Err(ProjectError::UnsupportedSchema(version));
    }
    match value {
        JsonValue::Object(m) => {
            let ghost before = m@;
            let n = normalize_manifest_keys(m);
            if version == CURRENT_SCHEMA_VERSION {
                return Ok(JsonValue::Object(n));
            }
            proof {
                lemma_member_names_differ();
            }
            let ghost f = moves(reading(before), root_renames());
            let ghost n0 = n@;
            let a = remove_member(n, "schema_version");
            let b = set_member(
                a,
                "schemaVersion",
                JsonValue::Number(JsonNumber::UInt(CURRENT_SCHEMA_VERSION as u64)),
            );
            let c1 = with_list(b, "sources");
            let c2 = with_list(c1, "tracks");
            let c3 = with_list(c2, "editRegions");
            let c4 = with_list(c3, "artifacts");
            let c5 = with_list(c4, "cacheEntries");
            let c6 = with_list(c5, "recordingSessions");
            assert forall|k: Seq<char>| #![trigger field(c6@, k)]
                if k == "schema_version"@ {
                    field(c6@, k) is None
                } else if k == "schemaVersion"@ {
                    field(c6@, k) == Some(
                        JsonValue::Number(JsonNumber::UInt(CURRENT_SCHEMA_VERSION as u64)),
                    )
                } else if is_list_member(k) && f(k) is None {
                    field(c6@, k) matches Some(JsonValue::Array(xs)) && xs@.len() == 0
                } else {
                    nested_renamed(k, f(k), field(c6@, k))
                } by {
                assert(nested_renamed(k, f(k), field(n0, k)));
                if is_list_member(k) {
                    if f(k) is None {
                        assert(field(n0, k) is None);
                    } else {
                        assert(field(n0, k) is Some);
                    }
                }
            }
            Ok(JsonValue::Object(c6))
        },
        other => {
            if version == CURRENT_SCHEMA_VERSION {
                return Ok(other);
            }
            Err(ProjectError::Validation(owned("manifest root must be an object")))
        },
    }
}

} // verus!

verus! {

/// An upgraded manifest declares the current schema version, so migrating
/// it again only normalises member names.
pub proof fn lemma_upgraded_manifest_is_current(before: Seq<(String, JsonValue)>, after: Seq<(String, JsonValue)>)
    requires
        upgraded(before, after),
    ensures
        members_version(after) == CURRENT_SCHEMA_VERSION,
{
    lemma_member_names_differ();
    assert(field(after, "schemaVersion"@) == Some(
        JsonValue::Number(JsonNumber::UInt(CURRENT_SCHEMA_VERSION as u64)),
    ));
}

} // verus!

verus! {

proof fn lemma_moves_key(
    f: spec_fn(Seq<char>) -> Option<JsonValue>,
    table: Seq<(Seq<char>, Seq<char>)>,
    k: Seq<char>,
)
    requires
        forall|j: int| 0 <= j < table.len() ==> (#[trigger] table[j]).0 != k && table[j].1 != k,
    ensures
        moves(f, table)(k) == f(k),
    decreases table.len(),
{
    if table.len() > 0 {
        lemma_moves_key(f, table.drop_last(), k);
        assert(table.last() == table[table.len() - 1]);
    }
}

proof fn lemma_moves_pair(f: spec_fn(Seq<char>) -> Option<JsonValue>, table: Seq<(Seq<char>, Seq<char>)>, i: int)
    requires
        0 <= i < table.len(),
        table[i].0 != table[i].1,
        forall|j: int|
            0 <= j < table.len() && j != i ==> (#[trigger] table[j]).0 != table[i].0 && table[j].1
                != table[i].0 && table[j].0 != table[i].1 && table[j].1 != table[i].1,
    ensures
        moves(f, table)(table[i].0) is None,
        moves(f, table)(table[i].1) == (if f(table[i].1) is Some {
            f(table[i].1)
        } else {
            f(table[i].0)
        }),
    decreases table.len(),
{
    let rest = table.drop_last();
    let (o, n) = table[i];
    if i == table.len() - 1 {
        assert forall|j: int| 0 <= j < rest.len() implies (#[trigger] rest[j]).0 != o && rest[j].1 != o by {
            assert(rest[j] == table[j]);
        }
        assert forall|j: int| 0 <= j < rest.len() implies (#[trigger] rest[j]).0 != n && rest[j].1 != n by {
            assert(rest[j] == table[j]);
        }
        lemma_moves_key(f, rest, o);
        lemma_moves_key(f, rest, n);
        assert(table.last() == table[i]);
    } else {
        assert(rest[i] == table[i]);
        assert forall|j: int|
            0 <= j < rest.len() && j != i implies (#[trigger] rest[j]).0 != rest[i].0 && rest[j].1
                != rest[i].0 && rest[j].0 != rest[i].1 && rest[j].1 != rest[i].1 by {
            assert(rest[j] == table[j]);
        }
        lemma_moves_pair(f, rest, i);
        assert(table.last() == table[table.len() - 1]);
    }
}

proof fn lemma_root_names()
    ensures
        "schema_version"@.len() == 14 && "schema_version"@[0] == 's',
        "schemaVersion"@.len() == 13 && "schemaVersion"@[0] == 's',
        "created_at"@.len() == 10 && "created_at"@[0] == 'c',
        "createdAt"@.len() == 9 && "createdAt"@[0] == 'c',
        "updated_at"@.len() == 10 && "updated_at"@[0] == 'u',
        "updatedAt"@.len() == 9 && "updatedAt"@[0] == 'u',
        "frame_rate"@.len() == 10 && "frame_rate"@[0] == 'f',
        "frameRate"@.len() == 9 && "frameRate"@[0] == 'f',
        "edit_regions"@.len() == 12 && "edit_regions"@[0] == 'e',
        "editRegions"@.len() == 11 && "editRegions"@[0] == 'e',
        "cache_entries"@.len() == 13 && "cache_entries"@[0] == 'c',
        "cacheEntries"@.len() == 12 && "cacheEntries"@[0] == 'c',
        "recording_sessions"@.len() == 18 && "recording_sessions"@[0] == 'r',
        "recordingSessions"@.len() == 17 && "recordingSessions"@[0] == 'r',
        "sources"@.len() == 7 && "sources"@[0] == 's',
        "artifacts"@.len() == 9 && "artifacts"@[0] == 'a',
        "tracks"@.len() == 6 && "tracks"@[0] == 't',
        "editor"@.len() == 6 && "editor"@[0] == 'e',
{
    reveal_strlit("schema_version");
    reveal_strlit("schemaVersion");
    reveal_strlit("created_at");
    reveal_strlit("createdAt");
    reveal_strlit("updated_at");
    reveal_strlit("updatedAt");
    reveal_strlit("frame_rate");
    reveal_strlit("frameRate");
    reveal_strlit("edit_regions");
    reveal_strlit("editRegions");
    reveal_strlit("cache_entries");
    reveal_strlit("cacheEntries");
    reveal_strlit("recording_sessions");
    reveal_strlit("recordingSessions");
    reveal_strlit("sources");
    reveal_strlit("artifacts");
    reveal_strlit("tracks");
    reveal_strlit("editor");
}

/// The snake_case member names a stored manifest may use at its root and the
/// names the current schema gives them.
pub open spec fn is_old_root_name(old: Seq<char>, new: Seq<char>) -> bool {
    ||| old == "schema_version"@ && new == "schemaVersion"@
    ||| old == "created_at"@ && new == "createdAt"@
    ||| old == "updated_at"@ && new == "updatedAt"@
    ||| old == "frame_rate"@ && new == "frameRate"@
    ||| old == "edit_regions"@ && new == "editRegions"@
    ||| old == "cache_entries"@ && new == "cacheEntries"@
    ||| old == "recording_sessions"@ && new == "recordingSessions"@
}

/// Migrating a manifest (an old one, `upgraded`, or a current one,
/// `keys_normalized`) renames every snake_case root member: the old name is
/// gone, and the current name is present whenever either name was. A
/// creation time, update time, frame rate or edit-region list keeps its
/// value: the one under the current name if the manifest had one, else the
/// one under the old name.
pub proof fn lemma_migrate_renames_root_names(
    before: Seq<(String, JsonValue)>,
    after: Seq<(String, JsonValue)>,
    old: Seq<char>,
    new: Seq<char>,
)
    requires
        upgraded(before, after) || keys_normalized(before, after),
        is_old_root_name(old, new),
    ensures
        field(after, old) is None,
        field(before, old) is Some || field(before, new) is Some ==> field(after, new) is Some,
        (old == "created_at"@ || old == "updated_at"@ || old == "frame_rate"@ || old
            == "edit_regions"@) && (field(before, old) is Some || field(before, new) is Some)
            ==> field(after, new) == (if field(before, new) is Some {
            field(before, new)
        } else {
            field(before, old)
        }),
{
    lemma_root_names();
    let t = root_renames();
    let f = reading(before);
    let i: int = if old == "schema_version"@ {
        0
    } else if old == "created_at"@ {
        1
    } else if old == "updated_at"@ {
        2
    } else if old == "frame_rate"@ {
        3
    } else if old == "edit_regions"@ {
        4
    } else if old == "cache_entries"@ {
        5
    } else {
        6
    };
    assert(t[i] == (old, new));
    assert forall|j: int|
        0 <= j < t.len() && j != i implies (#[trigger] t[j]).0 != t[i].0 && t[j].1 != t[i].0
            && t[j].0 != t[i].1 && t[j].1 != t[i].1 by {}
    lemma_moves_pair(f, t, i);
    assert(f(old) == field(before, old));
    assert(f(new) == field(before, new));
    let m = moves(f, t);
    assert(field(after, old) == field(after, old));
    assert(field(after, new) == field(after, new));
    if upgraded(before, after) {
        assert(!is_list_member(old));
    }
}

} // verus!

verus! {

// ---------------------------------------------------------------------------
// What the migration does inside lists and objects
// ---------------------------------------------------------------------------

/// `a` when it is present, else `b`.
pub open spec fn either(a: Option<JsonValue>, b: Option<JsonValue>) -> Option<JsonValue> {
    if a is Some {
        a
    } else {
        b
    }
}

/// Item `i` of a stored list, if there is one.
pub open spec fn list_item(list: Option<JsonValue>, i: int) -> Option<JsonValue> {
    match list {
        Some(JsonValue::Array(xs)) => if 0 <= i < xs@.len() {
            Some(xs@[i])
        } else {
            None
        },
        _ => None,
    }
}

/// Member `k` of a stored object, if there is one.
pub open spec fn object_member(v: Option<JsonValue>, k: Seq<char>) -> Option<JsonValue> {
    match v {
        Some(JsonValue::Object(m)) => field(m@, k),
        _ => None,
    }
}

/// A stored object.
pub open spec fn is_stored_object(v: Option<JsonValue>) -> bool {
    v matches Some(JsonValue::Object(_))
}

/// The list a stored manifest keeps under `key`, which an old manifest may
/// keep under the snake_case name `old_key` instead.
pub open spec fn stored_list(before: Seq<(String, JsonValue)>, key: Seq<char>, old_key: Seq<char>) -> Option<JsonValue> {
    either(field(before, key), field(before, old_key))
}

proof fn lemma_moves_other(f: spec_fn(Seq<char>) -> Option<JsonValue>, from: Seq<char>, to: Seq<char>, k: Seq<char>)
    requires
        k != from && k != to,
    ensures
        moved(f, from, to)(k) == f(k),
{
}

/// Two renames in a row onto one name: both old names go, and the new
/// name keeps its value, else takes the first old name's, else the second's.
proof fn lemma_moves_onto_one(f: spec_fn(Seq<char>) -> Option<JsonValue>, table: Seq<(Seq<char>, Seq<char>)>, i: int)
    requires
        0 <= i && i + 1 < table.len(),
        table[i].1 == table[i + 1].1,
        table[i].0 != table[i + 1].0,
        table[i].0 != table[i].1 && table[i + 1].0 != table[i].1,
        forall|j: int|
            0 <= j < table.len() && j != i && j != i + 1 ==> (#[trigger] table[j]).0 != table[i].0
                && table[j].1 != table[i].0 && table[j].0 != table[i + 1].0 && table[j].1
                != table[i + 1].0 && table[j].0 != table[i].1 && table[j].1 != table[i].1,
    ensures
        moves(f, table)(table[i].0) is None,
        moves(f, table)(table[i + 1].0) is None,
        moves(f, table)(table[i].1) == either(f(table[i].1), either(f(table[i].0), f(table[i + 1].0))),
    decreases table.len(),
{
    let rest = table.drop_last();
    let (o1, n) = table[i];
    let o2 = table[i + 1].0;
    if i + 1 == table.len() - 1 {
        assert(rest[i] == table[i]);
        assert forall|j: int|
            0 <= j < rest.len() && j != i implies (#[trigger] rest[j]).0 != rest[i].0 && rest[j].1
                != rest[i].0 && rest[j].0 != rest[i].1 && rest[j].1 != rest[i].1 by {
            assert(rest[j] == table[j]);
        }
        lemma_moves_pair(f, rest, i);
        assert forall|j: int| 0 <= j < rest.len() implies (#[trigger] rest[j]).0 != o2 && rest[j].1 != o2 by {
            assert(rest[j] == table[j]);
        }
        lemma_moves_key(f, rest, o2);
        assert(table.last() == table[i + 1]);
    } else {
        assert(rest[i] == table[i]);
        assert(rest[i + 1] == table[i + 1]);
        assert forall|j: int|
            0 <= j < rest.len() && j != i && j != i + 1 implies (#[trigger] rest[j]).0 != rest[i].0
                && rest[j].1 != rest[i].0 && rest[j].0 != rest[i + 1].0 && rest[j].1 != rest[i + 1].0
                && rest[j].0 != rest[i].1 && rest[j].1 != rest[i].1 by {
            assert(rest[j] == table[j]);
        }
        lemma_moves_onto_one(f, rest, i);
        let last = table[table.len() - 1];
        assert(table.last() == last);
        lemma_moves_other(moves(f, rest), last.0, last.1, o1);
        lemma_moves_other(moves(f, rest), last.0, last.1, o2);
        lemma_moves_other(moves(f, rest), last.0, last.1, n);
    }
}

/// Renaming `old` to `new` in object `x` by `table`, where no other rename
/// of `table` touches either name.
proof fn lemma_object_pair_renamed(x: JsonValue, y: JsonValue, table: Seq<(Seq<char>, Seq<char>)>, i: int)
    requires
        object_renamed(x, y, table),
        x is Object,
        0 <= i < table.len(),
        table[i].0 != table[i].1,
        forall|j: int|
            0 <= j < table.len() && j != i ==> (#[trigger] table[j]).0 != table[i].0 && table[j].1
                != table[i].0 && table[j].0 != table[i].1 && table[j].1 != table[i].1,
    ensures
        is_stored_object(Some(y)),
        object_member(Some(y), table[i].0) is None,
        object_member(Some(y), table[i].1) == either(
            object_member(Some(x), table[i].1),
            object_member(Some(x), table[i].0),
        ),
{
    match x {
        JsonValue::Object(m) => {
            lemma_moves_pair(reading(m@), table, i);
            match y {
                JsonValue::Object(m2) => {
                    assert(field(m2@, table[i].0) == moves(reading(m@), table)(table[i].0));
                    assert(field(m2@, table[i].1) == moves(reading(m@), table)(table[i].1));
                },
                _ => {},
            }
        },
        _ => {},
    }
}

/// Renaming in object `x` by `table` leaves every member that no rename of
/// `table` names as it was.
proof fn lemma_object_other_kept(x: JsonValue, y: JsonValue, table: Seq<(Seq<char>, Seq<char>)>, k: Seq<char>)
    requires
        object_renamed(x, y, table),
        x is Object,
        forall|j: int| 0 <= j < table.len() ==> (#[trigger] table[j]).0 != k && table[j].1 != k,
    ensures
        object_member(Some(y), k) == object_member(Some(x), k),
{
    match x {
        JsonValue::Object(m) => {
            lemma_moves_key(reading(m@), table, k);
            match y {
                JsonValue::Object(m2) => {
                    assert(field(m2@, k) == moves(reading(m@), table)(k));
                },
                _ => {},
            }
        },
        _ => {},
    }
}

/// Item `i` of a list renamed by `objects_renamed` is item `i` renamed.
proof fn lemma_list_item_renamed(
    before: Option<JsonValue>,
    after: Option<JsonValue>,
    table: Seq<(Seq<char>, Seq<char>)>,
    i: int,
)
    requires
        opt_objects_renamed(before, after, table),
        is_stored_object(list_item(before, i)),
    ensures
        list_item(after, i) is Some,
        object_renamed(list_item(before, i).unwrap(), list_item(after, i).unwrap(), table),
{
    match (before, after) {
        (Some(JsonValue::Array(xs)), Some(JsonValue::Array(ys))) => {
            assert(object_renamed(xs@[i], ys@[i], table));
        },
        _ => {},
    }
}

/// How the root of a migrated manifest reads member `key`, as the nested
/// renames see it.
proof fn lemma_migrated_member(
    before: Seq<(String, JsonValue)>,
    after: Seq<(String, JsonValue)>,
    key: Seq<char>,
)
    requires
        upgraded(before, after) || keys_normalized(before, after),
        moves(reading(before), root_renames())(key) is Some,
        key != "schema_version"@ && key != "schemaVersion"@,
    ensures
        nested_renamed(key, moves(reading(before), root_renames())(key), field(after, key)),
{
}

} // verus!

verus! {

proof fn lemma_nested_names()
    ensures
        "relative_path"@.len() == 13 && "relativePath"@.len() == 12,
        "wall_time_utc"@.len() == 13 && "wall_time_utc"@[0] == 'w',
        "wallTimeUtc"@.len() == 11 && "wallTimeUtc"@[0] == 'w',
        "qpc_origin_ticks"@.len() == 16 && "qpc_origin_ticks"@[0] == 'q',
        "qpcOriginTicks"@.len() == 14 && "qpcOriginTicks"@[0] == 'q',
        "qpc_frequency"@.len() == 13 && "qpc_frequency"@[0] == 'q',
        "qpcFrequency"@.len() == 12 && "qpcFrequency"@[0] == 'q',
        "paused_duration"@.len() == 15 && "paused_duration"@[0] == 'p',
        "pausedDuration"@.len() == 14 && "pausedDuration"@[0] == 'p',
        "source_id"@.len() == 9 && "sourceId"@.len() == 8,
        "source_offset"@.len() == 13 && "sourceOffset"@.len() == 12,
        "clips"@.len() == 5 && "clips"@[0] == 'c',
{
    reveal_strlit("relative_path");
    reveal_strlit("relativePath");
    reveal_strlit("wall_time_utc");
    reveal_strlit("wallTimeUtc");
    reveal_strlit("qpc_origin_ticks");
    reveal_strlit("qpcOriginTicks");
    reveal_strlit("qpc_frequency");
    reveal_strlit("qpcFrequency");
    reveal_strlit("paused_duration");
    reveal_strlit("pausedDuration");
    reveal_strlit("source_id");
    reveal_strlit("sourceId");
    reveal_strlit("source_offset");
    reveal_strlit("sourceOffset");
    reveal_strlit("clips");
}

/// The list a stored manifest keeps under `key` (or its snake_case name
/// `old_key`) is the list the migration renames inside.
proof fn lemma_root_list(before: Seq<(String, JsonValue)>, key: Seq<char>, old_key: Seq<char>)
    requires
        (key == "sources"@ && old_key == "sources"@) || (key == "artifacts"@ && old_key
            == "artifacts"@) || (key == "tracks"@ && old_key == "tracks"@) || (key == "editor"@
            && old_key == "editor"@) || (key == "cacheEntries"@ && old_key == "cache_entries"@) || (
        key == "recordingSessions"@ && old_key == "recording_sessions"@),
    ensures
        moves(reading(before), root_renames())(key) == stored_list(before, key, old_key),
{
    lemma_root_names();
    let t = root_renames();
    let f = reading(before);
    if key == "cacheEntries"@ || key == "recordingSessions"@ {
        let i: int = if key == "cacheEntries"@ {
            5
        } else {
            6
        };
        assert(t[i] == (old_key, key));
        assert forall|j: int|
            0 <= j < t.len() && j != i implies (#[trigger] t[j]).0 != t[i].0 && t[j].1 != t[i].0
                && t[j].0 != t[i].1 && t[j].1 != t[i].1 by {}
        lemma_moves_pair(f, t, i);
    } else {
        assert forall|j: int| 0 <= j < t.len() implies (#[trigger] t[j]).0 != key && t[j].1 != key by {}
        lemma_moves_key(f, t, key);
    }
}

/// Migrating a manifest gives every stored file reference (each source,
/// artifact and cache entry) its current `relativePath` member: the old
/// `relative_path` is gone, the path is the one under `relativePath` if the
/// entry had one, else the one under `relative_path`, and every other member
/// of the entry is kept.
pub proof fn lemma_migrate_renames_stored_paths(
    before: Seq<(String, JsonValue)>,
    after: Seq<(String, JsonValue)>,
    key: Seq<char>,
    old_key: Seq<char>,
    i: int,
)
    requires
        upgraded(before, after) || keys_normalized(before, after),
        (key == "sources"@ && old_key == "sources"@) || (key == "artifacts"@ && old_key
            == "artifacts"@) || (key == "cacheEntries"@ && old_key == "cache_entries"@),
        is_stored_object(list_item(stored_list(before, key, old_key), i)),
    ensures
        is_stored_object(list_item(field(after, key), i)),
        object_member(list_item(field(after, key), i), "relative_path"@) is None,
        object_member(list_item(field(after, key), i), "relativePath"@) == either(
            object_member(list_item(stored_list(before, key, old_key), i), "relativePath"@),
            object_member(list_item(stored_list(before, key, old_key), i), "relative_path"@),
        ),
        forall|k: Seq<char>|
            k != "relative_path"@ && k != "relativePath"@ ==> #[trigger] object_member(
                list_item(field(after, key), i),
                k,
            ) == object_member(list_item(stored_list(before, key, old_key), i), k),
{
    lemma_root_names();
    lemma_nested_names();
    lemma_root_list(before, key, old_key);
    lemma_migrated_member(before, after, key);
    let xs = stored_list(before, key, old_key);
    let t = path_renames();
    lemma_list_item_renamed(xs, field(after, key), t, i);
    let x = list_item(xs, i).unwrap();
    let y = list_item(field(after, key), i).unwrap();
    lemma_object_pair_renamed(x, y, t, 0);
    assert forall|k: Seq<char>|
        k != "relative_path"@ && k != "relativePath"@ implies #[trigger] object_member(
        list_item(field(after, key), i),
        k,
    ) == object_member(list_item(xs, i), k) by {
        lemma_object_other_kept(x, y, t, k);
    }
}

/// The clock member names a stored recording session may use and their
/// current names.
pub open spec fn is_old_session_name(old: Seq<char>, new: Seq<char>) -> bool {
    ||| old == "wall_time_utc"@ && new == "wallTimeUtc"@
    ||| old == "qpc_origin_ticks"@ && new == "qpcOriginTicks"@
    ||| old == "qpc_frequency"@ && new == "qpcFrequency"@
    ||| old == "paused_duration"@ && new == "pausedDuration"@
}

/// Migrating a manifest gives each recording session its current clock
/// member names: the old name is gone and the current one holds the value
/// the session had under it, else the one under the old name.
pub proof fn lemma_migrate_renames_session_clock(
    before: Seq<(String, JsonValue)>,
    after: Seq<(String, JsonValue)>,
    i: int,
    old: Seq<char>,
    new: Seq<char>,
)
    requires
        upgraded(before, after) || keys_normalized(before, after),
        is_old_session_name(old, new),
        is_stored_object(list_item(stored_list(before, "recordingSessions"@, "recording_sessions"@), i)),
    ensures
        is_stored_object(list_item(field(after, "recordingSessions"@), i)),
        object_member(list_item(field(after, "recordingSessions"@), i), old) is None,
        object_member(list_item(field(after, "recordingSessions"@), i), new) == either(
            object_member(
                list_item(stored_list(before, "recordingSessions"@, "recording_sessions"@), i),
                new,
            ),
            object_member(
                list_item(stored_list(before, "recordingSessions"@, "recording_sessions"@), i),
                old,
            ),
        ),
{
    lemma_root_names();
    lemma_nested_names();
    let key = "recordingSessions"@;
    lemma_root_list(before, key, "recording_sessions"@);
    lemma_migrated_member(before, after, key);
    let xs = stored_list(before, key, "recording_sessions"@);
    let t = session_renames();
    lemma_list_item_renamed(xs, field(after, key), t, i);
    let x = list_item(xs, i).unwrap();
    let y = list_item(field(after, key), i).unwrap();
    let j: int = if old == "wall_time_utc"@ {
        0
    } else if old == "qpc_origin_ticks"@ {
        1
    } else if old == "qpc_frequency"@ {
        2
    } else {
        3
    };
    assert(t[j] == (old, new));
    assert forall|l: int|
        0 <= l < t.len() && l != j implies (#[trigger] t[l]).0 != t[j].0 && t[l].1 != t[j].0
            && t[l].0 != t[j].1 && t[l].1 != t[j].1 by {}
    lemma_object_pair_renamed(x, y, t, j);
}

/// The source member names a stored clip may use and their current names.
pub open spec fn is_old_clip_name(old: Seq<char>, new: Seq<char>) -> bool {
    ||| old == "source_id"@ && new == "sourceId"@
    ||| old == "source_offset"@ && new == "sourceOffset"@
}

/// Clip `c` of track `t` in a list of stored tracks.
pub open spec fn track_clip(tracks: Option<JsonValue>, t: int, c: int) -> Option<JsonValue> {
    list_item(object_member(list_item(tracks, t), "clips"@), c)
}

/// Migrating a manifest gives every clip of every track its current source
/// member names: the old name is gone and the current one holds the value
/// the clip had under it, else the one under the old name.
pub proof fn lemma_migrate_renames_clip_sources(
    before: Seq<(String, JsonValue)>,
    after: Seq<(String, JsonValue)>,
    t: int,
    c: int,
    old: Seq<char>,
    new: Seq<char>,
)
    requires
        upgraded(before, after) || keys_normalized(before, after),
        is_old_clip_name(old, new),
        is_stored_object(track_clip(field(before, "tracks"@), t, c)),
    ensures
        is_stored_object(track_clip(field(after, "tracks"@), t, c)),
        object_member(track_clip(field(after, "tracks"@), t, c), old) is None,
        object_member(track_clip(field(after, "tracks"@), t, c), new) == either(
            object_member(track_clip(field(before, "tracks"@), t, c), new),
            object_member(track_clip(field(before, "tracks"@), t, c), old),
        ),
{
    lemma_root_names();
    lemma_nested_names();
    let key = "tracks"@;
    lemma_root_list(before, key, key);
    lemma_migrated_member(before, after, key);
    let tb = list_item(field(before, key), t);
    let ta = list_item(field(after, key), t);
    match (field(before, key), field(after, key)) {
        (Some(JsonValue::Array(xs)), Some(JsonValue::Array(ys))) => {
            assert(track_renamed(xs@[t], ys@[t]));
        },
        _ => {},
    }
    let cb = object_member(tb, "clips"@);
    let ca = object_member(ta, "clips"@);
    assert(opt_objects_renamed(cb, ca, clip_renames()));
    let tbl = clip_renames();
    lemma_list_item_renamed(cb, ca, tbl, c);
    let x = list_item(cb, c).unwrap();
    let y = list_item(ca, c).unwrap();
    let j: int = if old == "source_id"@ {
        0
    } else {
        1
    };
    assert(tbl[j] == (old, new));
    assert forall|l: int|
        0 <= l < tbl.len() && l != j implies (#[trigger] tbl[l]).0 != tbl[j].0 && tbl[l].1
            != tbl[j].0 && tbl[l].0 != tbl[j].1 && tbl[l].1 != tbl[j].1 by {}
    lemma_object_pair_renamed(x, y, tbl, j);
}

} // verus!

verus! {

proof fn lemma_editor_names()
    ensures
        "zoom_regions"@.len() == 12 && "zoom_regions"@[0] == 'z',
        "zoomRegions"@.len() == 11 && "zoomRegions"@[0] == 'z',
        "zooms"@.len() == 5 && "zooms"@[0] == 'z',
        "clip_regions"@.len() == 12 && "clip_regions"@[0] == 'c',
        "clipRegions"@.len() == 11 && "clipRegions"@[0] == 'c',
        "clips"@.len() == 5 && "clips"@[0] == 'c',
        "trim_regions"@.len() == 12 && "trim_regions"@[0] == 't',
        "trimRegions"@.len() == 11 && "trimRegions"@[0] == 't',
        "trims"@.len() == 5 && "trims"@[0] == 't',
        "speed_regions"@.len() == 13 && "speed_regions"@[0] == 's',
        "speedRegions"@.len() == 12 && "speedRegions"@[0] == 's',
        "speeds"@.len() == 6 && "speeds"@[0] == 's',
        "auto_captions"@.len() == 13 && "auto_captions"@[0] == 'a' && "auto_captions"@[2] == 't',
        "autoCaptions"@.len() == 12 && "autoCaptions"@[0] == 'a' && "autoCaptions"@[2] == 't',
        "captions"@.len() == 8 && "captions"@[0] == 'c',
        "annotation_regions"@.len() == 18 && "annotation_regions"@[0] == 'a',
        "annotationRegions"@.len() == 17 && "annotationRegions"@[0] == 'a',
        "annotations"@.len() == 11 && "annotations"@[0] == 'a',
        "audio_regions"@.len() == 13 && "audio_regions"@[0] == 'a' && "audio_regions"@[2] == 'd',
        "audioRegions"@.len() == 12 && "audioRegions"@[0] == 'a' && "audioRegions"@[2] == 'd',
{
    reveal_strlit("zoom_regions");
    reveal_strlit("zoomRegions");
    reveal_strlit("zooms");
    reveal_strlit("clip_regions");
    reveal_strlit("clipRegions");
    reveal_strlit("clips");
    reveal_strlit("trim_regions");
    reveal_strlit("trimRegions");
    reveal_strlit("trims");
    reveal_strlit("speed_regions");
    reveal_strlit("speedRegions");
    reveal_strlit("speeds");
    reveal_strlit("auto_captions");
    reveal_strlit("autoCaptions");
    reveal_strlit("captions");
    reveal_strlit("annotation_regions");
    reveal_strlit("annotationRegions");
    reveal_strlit("annotations");
    reveal_strlit("audio_regions");
    reveal_strlit("audioRegions");
}

/// The editor region lists and the two older names (snake_case, then
/// camelCase) each of them was stored under.
pub open spec fn is_old_region_names(snake: Seq<char>, camel: Seq<char>, new: Seq<char>) -> bool {
    ||| snake == "zoom_regions"@ && camel == "zoomRegions"@ && new == "zooms"@
    ||| snake == "clip_regions"@ && camel == "clipRegions"@ && new == "clips"@
    ||| snake == "trim_regions"@ && camel == "trimRegions"@ && new == "trims"@
    ||| snake == "speed_regions"@ && camel == "speedRegions"@ && new == "speeds"@
    ||| snake == "auto_captions"@ && camel == "autoCaptions"@ && new == "captions"@
    ||| snake == "annotation_regions"@ && camel == "annotationRegions"@ && new == "annotations"@
}

/// Migrating a manifest gives each editor region list its current name:
/// both older names are gone, and the list is the one under the current
/// name if the editor had one, else the one under the snake_case name,
/// else the one under the older camelCase name.
pub proof fn lemma_migrate_renames_editor_regions(
    before: Seq<(String, JsonValue)>,
    after: Seq<(String, JsonValue)>,
    snake: Seq<char>,
    camel: Seq<char>,
    new: Seq<char>,
)
    requires
        upgraded(before, after) || keys_normalized(before, after),
        is_old_region_names(snake, camel, new),
        is_stored_object(field(before, "editor"@)),
    ensures
        is_stored_object(field(after, "editor"@)),
        object_member(field(after, "editor"@), snake) is None,
        object_member(field(after, "editor"@), camel) is None,
        object_member(field(after, "editor"@), new) == either(
            object_member(field(before, "editor"@), new),
            either(
                object_member(field(before, "editor"@), snake),
                object_member(field(before, "editor"@), camel),
            ),
        ),
{
    lemma_root_names();
    lemma_editor_names();
    let key = "editor"@;
    lemma_root_list(before, key, key);
    lemma_migrated_member(before, after, key);
    let t = editor_renames();
    let i: int = if snake == "zoom_regions"@ {
        0
    } else if snake == "clip_regions"@ {
        2
    } else if snake == "trim_regions"@ {
        4
    } else if snake == "speed_regions"@ {
        6
    } else if snake == "auto_captions"@ {
        8
    } else {
        10
    };
    assert(t[i] == (snake, new));
    assert(t[i + 1] == (camel, new));
    assert forall|j: int|
        0 <= j < t.len() && j != i && j != i + 1 implies (#[trigger] t[j]).0 != t[i].0 && t[j].1
            != t[i].0 && t[j].0 != t[i + 1].0 && t[j].1 != t[i + 1].0 && t[j].0 != t[i].1 && t[j].1
            != t[i].1 by {}
    match (field(before, key), field(after, key)) {
        (Some(JsonValue::Object(m)), Some(JsonValue::Object(m2))) => {
            lemma_moves_onto_one(reading(m@), t, i);
            assert(field(m2@, snake) == moves(reading(m@), t)(snake));
            assert(field(m2@, camel) == moves(reading(m@), t)(camel));
            assert(field(m2@, new) == moves(reading(m@), t)(new));
        },
        _ => {},
    }
}

/// Migrating a manifest gives the editor's audio region list its current
/// name `audioRegions`: `audio_regions` is gone, and the list is the one
/// under `audioRegions` if the editor had one, else the one under
/// `audio_regions`.
pub proof fn lemma_migrate_renames_editor_audio(before: Seq<(String, JsonValue)>, after: Seq<(String, JsonValue)>)
    requires
        upgraded(before, after) || keys_normalized(before, after),
        is_stored_object(field(before, "editor"@)),
    ensures
        is_stored_object(field(after, "editor"@)),
        object_member(field(after, "editor"@), "audio_regions"@) is None,
        object_member(field(after, "editor"@), "audioRegions"@) == either(
            object_member(field(before, "editor"@), "audioRegions"@),
            object_member(field(before, "editor"@), "audio_regions"@),
        ),
{
    lemma_root_names();
    lemma_editor_names();
    let key = "editor"@;
    lemma_root_list(before, key, key);
    lemma_migrated_member(before, after, key);
    let t = editor_renames();
    assert(t[12] == ("audio_regions"@, "audioRegions"@));
    assert forall|j: int|
        0 <= j < t.len() && j != 12 implies (#[trigger] t[j]).0 != t[12].0 && t[j].1 != t[12].0
            && t[j].0 != t[12].1 && t[j].1 != t[12].1 by {}
    match field(before, key) {
        Some(x) => {
            lemma_object_pair_renamed(x, field(after, key).unwrap(), t, 12);
        },
        None => {},
    }
}

} // verus!

verus! {

/// An empty stored list.
pub open spec fn is_empty_list(v: Option<JsonValue>) -> bool {
    v matches Some(JsonValue::Array(xs)) && xs@.len() == 0
}

/// The lists every current manifest has, by name.
pub open spec fn is_current_list_name(k: Seq<char>) -> bool {
    ||| k == "sources"@
    ||| k == "tracks"@
    ||| k == "editRegions"@
    ||| k == "artifacts"@
    ||| k == "cacheEntries"@
    ||| k == "recordingSessions"@
}

/// Migrating an old manifest leaves it with each of the six lists of the
/// current schema (sources, tracks, edit regions, artifacts, cache entries,
/// recording sessions): the one it had under the current or the snake_case
/// name, else an empty list. It declares the current version and no longer
/// the old version member.
pub proof fn lemma_upgrade_adds_missing_lists(
    before: Seq<(String, JsonValue)>,
    after: Seq<(String, JsonValue)>,
    key: Seq<char>,
)
    requires
        upgraded(before, after),
        is_current_list_name(key),
    ensures
        field(after, key) is Some,
        field(after, "schema_version"@) is None,
        field(after, "schemaVersion"@) == Some(
            JsonValue::Number(JsonNumber::UInt(CURRENT_SCHEMA_VERSION as u64)),
        ),
        (key == "sources"@ || key == "tracks"@ || key == "artifacts"@) && field(before, key) is None
            ==> is_empty_list(field(after, key)),
        key == "editRegions"@ && field(before, key) is None && field(before, "edit_regions"@) is None
            ==> is_empty_list(field(after, key)),
        key == "editRegions"@ && (field(before, key) is Some || field(before, "edit_regions"@) is Some)
            ==> field(after, key) == stored_list(before, key, "edit_regions"@),
        key == "cacheEntries"@ && stored_list(before, key, "cache_entries"@) is None
            ==> is_empty_list(field(after, key)),
        key == "recordingSessions"@ && stored_list(before, key, "recording_sessions"@) is None
            ==> is_empty_list(field(after, key)),
{
    lemma_root_names();
    lemma_member_names_differ();
    let f = moves(reading(before), root_renames());
    assert(field(after, key) == field(after, key));
    assert(field(after, "schema_version"@) == field(after, "schema_version"@));
    assert(field(after, "schemaVersion"@) == field(after, "schemaVersion"@));
    if key == "editRegions"@ {
        let t = root_renames();
        assert(t[4] == ("edit_regions"@, "editRegions"@));
        assert forall|j: int|
            0 <= j < t.len() && j != 4 implies (#[trigger] t[j]).0 != t[4].0 && t[j].1 != t[4].0
                && t[j].0 != t[4].1 && t[j].1 != t[4].1 by {}
        lemma_moves_pair(reading(before), t, 4);
    } else if key == "cacheEntries"@ {
        lemma_root_list(before, key, "cache_entries"@);
    } else if key == "recordingSessions"@ {
        lemma_root_list(before, key, "recording_sessions"@);
    } else {
        lemma_root_list(before, key, key);
    }
    if f(key) is Some {
        assert(nested_renamed(key, f(key), field(after, key)));
    }
}

} // verus!
