//! The diagnostics log kept beside each screen segment: one JSON object with
//! `version`, `createdAt`, `updatedAt`, `videoPath`, `diagnosticsPath`, the
//! `events` list (oldest first, at most `MAX_DIAGNOSTICS_EVENTS` of them) and
//! the `latest` event.
use vstd::prelude::*;
use crate::capture::{
    truncate_diagnostics_text, truncated_text, MAX_DIAGNOSTICS_EVENTS, MAX_DIAGNOSTICS_TEXT_CHARS,
};
use crate::input::member;
use crate::json::{field, find_member, lemma_last_position, set_member, take_member, JsonNumber, JsonValue};
use crate::paths::{forward_slashes, to_forward_slashes};
use crate::text::owned;

verus! {

/// `w` is `v` with every string in it, at any depth, cut to its last
/// `MAX_DIAGNOSTICS_TEXT_CHARS` characters; keys, numbers and shape stay.
pub open spec fn truncated(v: JsonValue, w: JsonValue) -> bool
    decreases v,
{
    match v {
        JsonValue::Text(s) => w matches JsonValue::Text(t) && t@ == truncated_text(
            s@,
            MAX_DIAGNOSTICS_TEXT_CHARS as nat,
        ),
        JsonValue::Array(xs) => w matches JsonValue::Array(ys) && ys@.len() == xs@.len() && forall|
            i: int,
        | 0 <= i < xs@.len() ==> truncated(#[trigger] xs@[i], ys@[i]),
        JsonValue::Object(ms) => w matches JsonValue::Object(ns) && ns@.len() == ms@.len() && forall|
            i: int,
        | 0 <= i < ms@.len() ==> (#[trigger] ms@[i]).0@ == ns@[i].0@ && truncated(ms@[i].1, ns@[i].1),
        _ => w == v,
    }
}

/// A diagnostics value with its strings truncated (see `truncated`).
pub fn truncate_diagnostics_value(v: &JsonValue) -> (w: JsonValue)
    ensures
        truncated(*v, w),
    decreases v,
{
    match v {
        JsonValue::Null => JsonValue::Null,
        JsonValue::Bool(b) => JsonValue::Bool(*b),
        JsonValue::Number(n) => JsonValue::Number(*n),
        JsonValue::Text(s) => JsonValue::Text(
            truncate_diagnostics_text(s.as_str(), MAX_DIAGNOSTICS_TEXT_CHARS),
        ),
        JsonValue::Array(xs) => {
            let mut ys: Vec<JsonValue> = Vec::new();
            let mut i: usize = 0;
            while i < xs.len()
                invariant
                    *v == JsonValue::Array(*xs),
                    i <= xs.len(),
                    ys.len() == i,
                    forall|j: int| 0 <= j < i ==> truncated(#[trigger] xs@[j], ys@[j]),
                decreases xs.len() - i,
            {
                proof {
                    assert(decreases_to!(*v => (*v)->Array_0));
                    assert(decreases_to!(*xs => xs@));
                    assert(decreases_to!(xs@ => xs@[i as int]));
                }
                let y = truncate_diagnostics_value(&xs[i]);
                ys.push(y);
                i = i + 1;
            }
            JsonValue::Array(ys)
        },
        JsonValue::Object(ms) => {
            let mut ns: Vec<(String, JsonValue)> = Vec::new();
            let mut i: usize = 0;
            while i < ms.len()
                invariant
                    *v == JsonValue::Object(*ms),
                    i <= ms.len(),
                    ns.len() == i,
                    forall|j: int|
                        0 <= j < i ==> (#[trigger] ms@[j]).0@ == ns@[j].0@ && truncated(
                            ms@[j].1,
                            ns@[j].1,
                        ),
                decreases ms.len() - i,
            {
                let key = ms[i].0.clone();
                proof {
                    assert(decreases_to!(*v => (*v)->Object_0));
                    assert(decreases_to!(*ms => ms@));
                    assert(decreases_to!(ms@ => ms@[i as int]));
                    assert(decreases_to!(ms@[i as int] => ms@[i as int].1));
                }
                let y = truncate_diagnostics_value(&ms[i].1);
                ns.push((key, y));
                i = i + 1;
            }
            JsonValue::Object(ns)
        },
    }
}

/// `e` is the event recorded for `snapshot` at `now`: an object with a
/// `timestamp` member and, truncated, every member of `snapshot` (when it is
/// an object); a snapshot member named `timestamp` takes the place of the
/// time.
pub open spec fn is_event(snapshot: JsonValue, now: Seq<char>, e: JsonValue) -> bool {
    e matches JsonValue::Object(em) && (forall|k: Seq<char>|
        #![trigger field(em@, k)]
        #![trigger member(snapshot, k)]
        (field(em@, k) is Some <==> (k == "timestamp"@ || member(snapshot, k) is Some)) && (member(
            snapshot,
            k,
        ) matches Some(x) ==> (field(em@, k) matches Some(y) && truncated(x, y)))) && (member(
        snapshot,
        "timestamp"@,
    ) is None ==> (field(em@, "timestamp"@) matches Some(JsonValue::Text(t)) && t@ == now))
}

/// The event recorded for `snapshot` at `now` (see `is_event`).
pub fn diagnostics_event(snapshot: &JsonValue, now: &str) -> (e: JsonValue)
    ensures
        is_event(*snapshot, now@, e),
{
    let mut ev: Vec<(String, JsonValue)> = Vec::new();
    ev.push((owned("timestamp"), JsonValue::Text(owned(now))));
    let ghost init = ev@;
    assert(init.len() == 1 && init.last() == init[0]);
    assert(init[0].0@ == "timestamp"@);
    assert(init.drop_last() =~= Seq::<(String, JsonValue)>::empty());
    assert forall|k: Seq<char>| #[trigger] field(init, k) == (if k == "timestamp"@ {
        Some(init[0].1)
    } else {
        None
    }) by {
        reveal_with_fuel(field, 2);
    }
    match snapshot {
        JsonValue::Object(sm) => {
            let mut i: usize = 0;
            assert(sm@.take(0) =~= Seq::<(String, JsonValue)>::empty());
            while i < sm.len()
                invariant
                    *snapshot == JsonValue::Object(*sm),
                    i <= sm.len(),
                    init.len() == 1,
                    forall|k: Seq<char>| #[trigger] field(init, k) == (if k == "timestamp"@ {
                        Some(init[0].1)
                    } else {
                        None
                    }),
                    init[0].1 matches JsonValue::Text(t) && t@ == now@,
                    forall|k: Seq<char>|
                        #![trigger field(ev@, k)]
                        #![trigger field(sm@.take(i as int), k)]
                        field(sm@.take(i as int), k) matches Some(x) ==> (field(ev@, k) matches Some(
                            y,
                        ) && truncated(x, y)),
                    forall|k: Seq<char>|
                        #![trigger field(ev@, k)]
                        #![trigger field(sm@.take(i as int), k)]
                        field(sm@.take(i as int), k) is None ==> field(ev@, k) == field(init, k),
                decreases sm.len() - i,
            {
                let value = truncate_diagnostics_value(&sm[i].1);
                let ghost before = ev@;
                let ghost t0 = sm@.take(i as int);
                let ghost t1 = sm@.take(i + 1);
                assert(t1.drop_last() =~= t0);
                assert(t1.last() == sm@[i as int]);
                ev = set_member(ev, sm[i].0.as_str(), value);
                assert forall|k: Seq<char>| #[trigger] field(t1, k) == (if k == sm@[i as int].0@ {
                    Some(sm@[i as int].1)
                } else {
                    field(t0, k)
                }) by {}
                assert forall|k: Seq<char>|
                    (field(t1, k) matches Some(x) ==> (#[trigger] field(ev@, k) matches Some(y)
                        && truncated(x, y))) by {
                    if k != sm@[i as int].0@ {
                        assert(field(t0, k) == field(t1, k));
                    }
                }
                assert forall|k: Seq<char>| field(t1, k) is None implies #[trigger] field(ev@, k)
                    == field(init, k) by {
                    assert(field(t0, k) is None);
                }
                i = i + 1;
            }
            assert(sm@.take(sm@.len() as int) =~= sm@);
        },
        _ => {},
    }
    JsonValue::Object(ev)
}

/// The version a new log is written with.
pub const DIAGNOSTICS_LOG_VERSION: u64 = 1;

/// The members of the log as it was read: its members when it is an object,
/// none when the sidecar held anything else.
pub open spec fn log_members(log: JsonValue) -> Seq<(String, JsonValue)> {
    match log {
        JsonValue::Object(m) => m@,
        _ => Seq::empty(),
    }
}

/// The events a log already holds: its `events` member when that is a list,
/// none otherwise.
pub open spec fn prior_events(members: Seq<(String, JsonValue)>) -> Seq<JsonValue> {
    match field(members, "events"@) {
        Some(JsonValue::Array(xs)) => xs@,
        _ => Seq::empty(),
    }
}

/// `events` is `prior` followed by one new event, less the oldest ones beyond
/// `MAX_DIAGNOSTICS_EVENTS`.
pub open spec fn appended_newest(prior: Seq<JsonValue>, events: Seq<JsonValue>) -> bool {
    let total = prior.len() + 1;
    let dropped: int = if total > MAX_DIAGNOSTICS_EVENTS {
        total - MAX_DIAGNOSTICS_EVENTS
    } else {
        0
    };
    &&& events.len() == total - dropped
    &&& forall|i: int| 0 <= i < events.len() - 1 ==> #[trigger] events[i] == prior[dropped + i]
}

/// However long the log already is, recording a snapshot leaves at most
/// `MAX_DIAGNOSTICS_EVENTS` events, the new one last.
pub proof fn lemma_log_stays_bounded(prior: Seq<JsonValue>, events: Seq<JsonValue>)
    requires
        appended_newest(prior, events),
    ensures
        events.len() <= MAX_DIAGNOSTICS_EVENTS,
        events.len() >= 1,
        prior.len() < MAX_DIAGNOSTICS_EVENTS ==> events.len() == prior.len() + 1,
{
}

/// The newest `MAX_DIAGNOSTICS_EVENTS` of `history` (all of it when it is
/// shorter), oldest first.
pub open spec fn newest_events(history: Seq<JsonValue>) -> Seq<JsonValue> {
    if history.len() > MAX_DIAGNOSTICS_EVENTS {
        history.skip(history.len() - MAX_DIAGNOSTICS_EVENTS)
    } else {
        history
    }
}

proof fn lemma_one_more_event(prior: Seq<JsonValue>, events: Seq<JsonValue>, h0: Seq<JsonValue>, e: JsonValue)
    requires
        prior == newest_events(h0),
        appended_newest(prior, events),
        events.last() == e,
    ensures
        events == newest_events(h0.push(e)),
{
    let h = h0.push(e);
    let n = events.len();
    let expected = newest_events(h);
    if h0.len() <= MAX_DIAGNOSTICS_EVENTS {
        let dropped: int = if h.len() > MAX_DIAGNOSTICS_EVENTS { h.len() - MAX_DIAGNOSTICS_EVENTS } else { 0 };
        assert(n == h.len() - dropped);
        assert(expected.len() == n);
        assert forall|i: int| 0 <= i < n implies events[i] == expected[i] by {
            assert(expected[i] == h[dropped + i]);
            if i < n - 1 {
                assert(events[i] == prior[dropped + i]);
            }
        }
        assert(events =~= expected);
    } else {
        assert(prior.len() == MAX_DIAGNOSTICS_EVENTS);
        assert(n == MAX_DIAGNOSTICS_EVENTS);
        let off: int = h0.len() - MAX_DIAGNOSTICS_EVENTS;
        assert(expected.len() == n);
        assert forall|i: int| 0 <= i < n implies events[i] == expected[i] by {
            assert(expected[i] == h[off + 1 + i]);
            if i < n - 1 {
                assert(events[i] == prior[1 + i]);
                assert(prior[1 + i] == h0[off + 1 + i]);
            }
        }
        assert(events =~= expected);
    }
}

/// Over any number of recordings into a log that started without events,
/// the log holds exactly the newest `MAX_DIAGNOSTICS_EVENTS` events recorded,
/// oldest first. `logs[i]` is the event list after `i` recordings and
/// `history[i]` the event recorded by recording `i + 1`.
pub proof fn lemma_log_keeps_newest_events(logs: Seq<Seq<JsonValue>>, history: Seq<JsonValue>, k: int)
    requires
        0 <= k < logs.len(),
        k <= history.len(),
        logs[0].len() == 0,
        forall|i: int|
            0 <= i < k ==> appended_newest(#[trigger] logs[i], logs[i + 1]) && logs[i + 1].last()
                == history[i],
    ensures
        logs[k] == newest_events(history.take(k)),
    decreases k,
{
    if k == 0 {
        assert(history.take(0) =~= Seq::<JsonValue>::empty());
        assert(logs[0] =~= Seq::<JsonValue>::empty());
    } else {
        lemma_log_keeps_newest_events(logs, history, k - 1);
        assert(appended_newest(logs[k - 1], logs[k]));
        assert(history.take(k - 1).push(history[k - 1]) =~= history.take(k));
        lemma_one_more_event(logs[k - 1], logs[k], history.take(k - 1), history[k - 1]);
    }
}

/// `v` is a string whose text is `s`.
pub open spec fn text_is(v: Option<JsonValue>, s: Seq<char>) -> bool {
    v matches Some(JsonValue::Text(t)) && t@ == s
}

/// The members the log update writes.
pub open spec fn is_log_key(k: Seq<char>) -> bool {
    k == "version"@ || k == "createdAt"@ || k == "updatedAt"@ || k == "videoPath"@ || k
        == "diagnosticsPath"@ || k == "events"@ || k == "latest"@
}

proof fn lemma_log_keys_differ()
    ensures
        "version"@ != "createdAt"@,
        "version"@ != "updatedAt"@,
        "version"@ != "videoPath"@,
        "version"@ != "diagnosticsPath"@,
        "version"@ != "events"@,
        "version"@ != "latest"@,
        "createdAt"@ != "updatedAt"@,
        "createdAt"@ != "videoPath"@,
        "createdAt"@ != "diagnosticsPath"@,
        "createdAt"@ != "events"@,
        "createdAt"@ != "latest"@,
        "updatedAt"@ != "videoPath"@,
        "updatedAt"@ != "diagnosticsPath"@,
        "updatedAt"@ != "events"@,
        "updatedAt"@ != "latest"@,
        "videoPath"@ != "diagnosticsPath"@,
        "videoPath"@ != "events"@,
        "videoPath"@ != "latest"@,
        "diagnosticsPath"@ != "events"@,
        "diagnosticsPath"@ != "latest"@,
        "events"@ != "latest"@,
{
    reveal_strlit("version");
    reveal_strlit("createdAt");
    reveal_strlit("updatedAt");
    reveal_strlit("videoPath");
    reveal_strlit("diagnosticsPath");
    reveal_strlit("events");
    reveal_strlit("latest");
    assert("version"@[0] == 'v' && "version"@.len() == 7);
    assert("createdAt"@[0] == 'c');
    assert("updatedAt"@[0] == 'u');
    assert("videoPath"@[0] == 'v' && "videoPath"@.len() == 9);
    assert("diagnosticsPath"@[0] == 'd');
    assert("events"@[0] == 'e');
    assert("latest"@[0] == 'l');
}

/// `after` is the log `before` with `snapshot` recorded at `now` for the
/// segment at `video_path`, whose log lives at `sidecar_path`: the version
/// and creation time are kept (and set when missing), the update time and
/// both paths (with forward slashes) are set, the event is appended to the
/// newest events and is the latest one, and every other member is kept.
pub open spec fn recorded(
    before: Seq<(String, JsonValue)>,
    after: Seq<(String, JsonValue)>,
    snapshot: JsonValue,
    now: Seq<char>,
    video_path: Seq<char>,
    sidecar_path: Seq<char>,
) -> bool {
    &&& field(after, "version"@) == (if field(before, "version"@) is Some {
        field(before, "version"@)
    } else {
        Some(JsonValue::Number(JsonNumber::UInt(DIAGNOSTICS_LOG_VERSION)))
    })
    &&& (field(before, "createdAt"@) is Some ==> field(after, "createdAt"@) == field(
        before,
        "createdAt"@,
    ))
    &&& (field(before, "createdAt"@) is None ==> text_is(field(after, "createdAt"@), now))
    &&& text_is(field(after, "updatedAt"@), now)
    &&& text_is(field(after, "videoPath"@), forward_slashes(video_path))
    &&& text_is(field(after, "diagnosticsPath"@), forward_slashes(sidecar_path))
    &&& field(after, "events"@) matches Some(JsonValue::Array(es)) && appended_newest(
        prior_events(before),
        es@,
    ) && is_event(snapshot, now, es@.last())
    &&& field(after, "latest"@) matches Some(e) && is_event(snapshot, now, e)
    &&& forall|k: Seq<char>| !is_log_key(k) ==> #[trigger] field(after, k) == field(before, k)
}

/// Records `snapshot`, taken at `now`, in the diagnostics log `log` of the
/// segment at `video_path` (see `recorded`). A log that is not an object is
/// started afresh.
pub fn record_diagnostics_snapshot(
    log: JsonValue,
    snapshot: &JsonValue,
    now: &str,
    video_path: &str,
    sidecar_path: &str,
) -> (out: JsonValue)
    ensures
        out matches JsonValue::Object(ms) && recorded(
            log_members(log),
            ms@,
            *snapshot,
            now@,
            video_path@,
            sidecar_path@,
        ),
{
    let mut m: Vec<(String, JsonValue)> = match log {
        JsonValue::Object(members) => members,
        _ => Vec::new(),
    };
    let ghost before = m@;
    proof {
        lemma_log_keys_differ();
        lemma_last_position(m@, "version"@);
    }
    if find_member(&m, "version").is_none() {
        m = set_member(m, "version", JsonValue::Number(JsonNumber::UInt(DIAGNOSTICS_LOG_VERSION)));
    }
    let ghost s1 = m@;
    proof {
        lemma_last_position(m@, "createdAt"@);
    }
    if find_member(&m, "createdAt").is_none() {
        m = set_member(m, "createdAt", JsonValue::Text(owned(now)));
    }
    let ghost s2 = m@;
    m = set_member(m, "updatedAt", JsonValue::Text(owned(now)));
    let ghost s3 = m@;
    m = set_member(m, "videoPath", JsonValue::Text(to_forward_slashes(video_path)));
    let ghost s4 = m@;
    m = set_member(m, "diagnosticsPath", JsonValue::Text(to_forward_slashes(sidecar_path)));
    let ghost s5 = m@;
    let (old_events, rest) = take_member(m, "events");
    let ghost s6 = rest@;
    let mut events: Vec<JsonValue> = match old_events {
        Some(JsonValue::Array(xs)) => xs,
        _ => Vec::new(),
    };
    proof {
        assert(field(s5, "events"@) == field(before, "events"@));
        assert(events@ == prior_events(before));
    }
    let ghost prior = events@;
    events.push(diagnostics_event(snapshot, now));
    let ghost appended = events@;
    assert(appended.last() == appended[prior.len() as int]);
    if events.len() > MAX_DIAGNOSTICS_EVENTS {
        let excess = events.len() - MAX_DIAGNOSTICS_EVENTS;
        let kept = events.split_off(excess);
        events = kept;
    }
    proof {
        assert(events@.last() == appended.last());
        assert(appended_newest(prior, events@));
    }
    let ghost list = events@;
    m = set_member(rest, "events", JsonValue::Array(events));
    let ghost s7 = m@;
    m = set_member(m, "latest", diagnostics_event(snapshot, now));
    proof {
        assert(field(m@, "events"@) == field(s7, "events"@));
        assert forall|k: Seq<char>| !is_log_key(k) implies #[trigger] field(m@, k) == field(
            before,
            k,
        ) by {
            assert(field(m@, k) == field(s7, k));
            assert(field(s7, k) == field(s6, k));
            assert(field(s6, k) == field(s5, k));
            assert(field(s5, k) == field(s4, k));
            assert(field(s4, k) == field(s3, k));
            assert(field(s3, k) == field(s2, k));
            assert(field(s2, k) == field(s1, k));
            assert(field(s1, k) == field(before, k));
        }
    }
    JsonValue::Object(m)
}

} // verus!
