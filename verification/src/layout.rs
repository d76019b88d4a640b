//! The `.kiri` folder layout, and the checks that creating a project or
//! saving a copy under a new name make before anything is written.
use vstd::prelude::*;
use crate::ids::{is_v4_uuid, new_id};
use crate::paths::extension_dot;
use crate::project::{is_blank, is_blank_text, reports, ProjectError, ProjectManifest};
use crate::text::{chars_of, owned};

verus! {

/// The folders every project has, relative to its root.
pub fn project_directories() -> (d: Vec<&'static str>)
    ensures
        d@.len() == 9,
        d@[0]@ == "media"@,
        d@[7]@ == "recovery"@,
        d@[8]@ == "exports"@,
{
    vec![
        "media",
        "telemetry",
        "transcript",
        "assets",
        "cache/proxies",
        "cache/thumbnails",
        "cache/waveforms",
        "recovery",
        "exports",
    ]
}

// ---------------------------------------------------------------------------
// Path components
// ---------------------------------------------------------------------------

/// The component list stands for the root when a path starts with `/`.
pub open spec fn root_marker() -> Seq<char> {
    seq!['/']
}

/// `segment` added to the components `cs`, unless it is empty or `.`.
pub open spec fn keep_segment(cs: Seq<Seq<char>>, segment: Seq<char>) -> Seq<Seq<char>> {
    if segment.len() == 0 || segment == seq!['.'] {
        cs
    } else {
        cs.push(segment)
    }
}

/// The components found in `s[0..i]` and the segment still being read.
pub open spec fn component_scan(s: Seq<char>, i: int) -> (Seq<Seq<char>>, Seq<char>)
    decreases i,
{
    if i <= 0 {
        (if s.len() > 0 && s[0] == '/' { seq![root_marker()] } else { seq![] }, seq![])
    } else {
        let (cs, cur) = component_scan(s, i - 1);
        if s[i - 1] == '/' {
            (keep_segment(cs, cur), seq![])
        } else {
            (cs, cur.push(s[i - 1]))
        }
    }
}

/// The components of a `/`-separated path: the root (for an absolute path)
/// and every segment between separators, with empty and `.` segments
/// skipped.
pub open spec fn components(s: Seq<char>) -> Seq<Seq<char>> {
    let (cs, cur) = component_scan(s, s.len() as int);
    keep_segment(cs, cur)
}

/// `path` lies inside (or is) `base`, component by component
/// (`Path::starts_with`).
pub open spec fn path_starts_with(path: Seq<char>, base: Seq<char>) -> bool {
    let p = components(path);
    let b = components(base);
    b.len() <= p.len() && p.take(b.len() as int) == b
}

/// The characters of the component list, one `Vec` per component.
pub open spec fn component_views(v: Seq<Vec<char>>) -> Seq<Seq<char>> {
    v.map_values(|c: Vec<char>| c@)
}

fn keep(cs: &mut Vec<Vec<char>>, cur: Vec<char>)
    ensures
        component_views(final(cs)@) == keep_segment(component_views(old(cs)@), cur@),
{
    if cur.len() == 0 {
        return;
    }
    if cur.len() == 1 && cur[0] == '.' {
        assert(cur@ =~= seq!['.']);
        return;
    }
    proof {
        if cur@ == seq!['.'] {
            assert(cur@.len() == 1 && cur@[0] == '.');
        }
    }
    cs.push(cur);
    assert(component_views(final(cs)@) =~= component_views(old(cs)@).push(cur@));
}

/// The components of `path`.
pub fn path_components(path: &str) -> (out: Vec<Vec<char>>)
    ensures
        component_views(out@) == components(path@),
{
    let s = chars_of(path);
    let mut cs: Vec<Vec<char>> = Vec::new();
    if s.len() > 0 && s[0] == '/' {
        let mut root: Vec<char> = Vec::new();
        root.push('/');
        cs.push(root);
        assert(component_views(cs@) =~= seq![root_marker()]);
    } else {
        assert(component_views(cs@) =~= seq![]);
    }
    let mut cur: Vec<char> = Vec::new();
    let mut i: usize = 0;
    while i < s.len()
        invariant
            s@ == path@,
            0 <= i <= s.len(),
            component_scan(s@, i as int) == (component_views(cs@), cur@),
        decreases s.len() - i,
    {
        if s[i] == '/' {
            let segment = cur;
            cur = Vec::new();
            keep(&mut cs, segment);
        } else {
            cur.push(s[i]);
        }
        i += 1;
    }
    keep(&mut cs, cur);
    cs
}

fn same_chars(a: &Vec<char>, b: &Vec<char>) -> (r: bool)
    ensures
        r == (a@ == b@),
{
    if a.len() != b.len() {
        return false;
    }
    let mut i: usize = 0;
    while i < a.len()
        invariant
            a.len() == b.len(),
            0 <= i <= a.len(),
            forall|k: int| 0 <= k < i ==> a@[k] == b@[k],
        decreases a.len() - i,
    {
        if a[i] != b[i] {
            return false;
        }
        i += 1;
    }
    assert(a@ =~= b@);
    true
}

/// Whether `path` lies inside (or is) `base`, component by component.
pub fn starts_with_path(path: &str, base: &str) -> (r: bool)
    ensures
        r == path_starts_with(path@, base@),
{
    let p = path_components(path);
    let b = path_components(base);
    if b.len() > p.len() {
        return false;
    }
    let ghost pv = component_views(p@);
    let ghost bv = component_views(b@);
    let mut i: usize = 0;
    while i < b.len()
        invariant
            pv == component_views(p@),
            bv == component_views(b@),
            pv == components(path@),
            bv == components(base@),
            b.len() <= p.len(),
            0 <= i <= b.len(),
            forall|k: int| 0 <= k < i ==> pv[k] == bv[k],
        decreases b.len() - i,
    {
        assert(pv[i as int] == p@[i as int]@);
        assert(bv[i as int] == b@[i as int]@);
        if !same_chars(&p[i], &b[i]) {
            assert(pv.take(b.len() as int)[i as int] != bv[i as int]);
            return false;
        }
        i += 1;
    }
    assert(pv.take(b.len() as int) =~= bv);
    true
}

// ---------------------------------------------------------------------------
// The `.kiri` extension
// ---------------------------------------------------------------------------

/// `c` in lower case, for ASCII letters.
pub open spec fn ascii_lower(c: char) -> char {
    if 'A' <= c <= 'Z' {
        ((c as int) + 32) as char
    } else {
        c
    }
}

/// `a` and `b` are equal up to ASCII case.
pub open spec fn eq_ignore_ascii_case(a: Seq<char>, b: Seq<char>) -> bool {
    a.len() == b.len() && forall|k: int| 0 <= k < a.len() ==> ascii_lower(#[trigger] a[k])
        == ascii_lower(b[k])
}

/// The path's last component is a file name whose extension is `kiri`, in
/// any ASCII case.
pub open spec fn has_kiri_extension(path: Seq<char>) -> bool {
    let cs = components(path);
    &&& cs.len() > 0
    &&& cs.last() != root_marker()
    &&& cs.last() != seq!['.', '.']
    &&& extension_dot(cs.last()) < cs.last().len()
    &&& eq_ignore_ascii_case(
        cs.last().subrange(extension_dot(cs.last()) + 1, cs.last().len() as int),
        "kiri"@,
    )
}

fn lower(c: char) -> (l: char)
    ensures
        l == ascii_lower(c),
{
    if 'A' <= c && c <= 'Z' {
        ((c as u8) + 32) as char
    } else {
        c
    }
}

/// Whether the path names a `.kiri` folder.
pub fn kiri_extension(path: &str) -> (r: bool)
    ensures
        r == has_kiri_extension(path@),
{
    let cs = path_components(path);
    proof {
        reveal_strlit("kiri");
    }
    let n = cs.len();
    if n == 0 {
        return false;
    }
    let last = &cs[n - 1];
    assert(component_views(cs@).last() == last@);
    if last.len() == 1 && last[0] == '/' {
        assert(last@ =~= root_marker());
        return false;
    }
    if last.len() == 2 && last[0] == '.' && last[1] == '.' {
        assert(last@ =~= seq!['.', '.']);
        return false;
    }
    proof {
        if last@ == root_marker() {
            assert(last@.len() == 1 && last@[0] == '/');
        }
        if last@ == seq!['.', '.'] {
            assert(last@.len() == 2 && last@[0] == '.' && last@[1] == '.');
        }
    }
    let dot = crate::paths::extension_start(last, 0);
    assert(last@.subrange(0, last@.len() as int) =~= last@);
    if dot >= last.len() {
        return false;
    }
    if last.len() - dot - 1 != 4 {
        return false;
    }
    let ok = lower(last[dot + 1]) == 'k' && lower(last[dot + 2]) == 'i' && lower(last[dot + 3])
        == 'r' && lower(last[dot + 4]) == 'i';
    proof {
        let ext = last@.subrange(dot + 1, last@.len() as int);
        if ok {
            assert forall|k: int| 0 <= k < ext.len() implies ascii_lower(#[trigger] ext[k])
                == ascii_lower("kiri"@[k]) by {
                assert(ext[k] == last@[dot + 1 + k]);
            }
        } else {
            if eq_ignore_ascii_case(ext, "kiri"@) {
                assert(ascii_lower(ext[0]) == ascii_lower("kiri"@[0]));
                assert(ascii_lower(ext[1]) == ascii_lower("kiri"@[1]));
                assert(ascii_lower(ext[2]) == ascii_lower("kiri"@[2]));
                assert(ascii_lower(ext[3]) == ascii_lower("kiri"@[3]));
            }
        }
    }
    ok
}

/// The path's last component is a file name whose extension equals `ext`
/// up to ASCII case.
pub open spec fn has_extension_ci(path: Seq<char>, ext: Seq<char>) -> bool {
    let cs = components(path);
    &&& cs.len() > 0
    &&& cs.last() != root_marker()
    &&& cs.last() != seq!['.', '.']
    &&& extension_dot(cs.last()) < cs.last().len()
    &&& eq_ignore_ascii_case(
        cs.last().subrange(extension_dot(cs.last()) + 1, cs.last().len() as int),
        ext,
    )
}

/// Whether the path names a file with extension `ext`, in any ASCII case.
#[verifier::loop_isolation(false)]
pub fn extension_is(path: &str, ext: &str) -> (r: bool)
    ensures
        r == has_extension_ci(path@, ext@),
{
    let cs = path_components(path);
    let e = chars_of(ext);
    let n = cs.len();
    if n == 0 {
        return false;
    }
    let last = &cs[n - 1];
    assert(component_views(cs@).last() == last@);
    if last.len() == 1 && last[0] == '/' {
        assert(last@ =~= root_marker());
        return false;
    }
    if last.len() == 2 && last[0] == '.' && last[1] == '.' {
        assert(last@ =~= seq!['.', '.']);
        return false;
    }
    proof {
        if last@ == root_marker() {
            assert(last@.len() == 1 && last@[0] == '/');
        }
        if last@ == seq!['.', '.'] {
            assert(last@.len() == 2 && last@[0] == '.' && last@[1] == '.');
        }
    }
    let dot = crate::paths::extension_start(last, 0);
    assert(last@.subrange(0, last@.len() as int) =~= last@);
    if dot >= last.len() {
        return false;
    }
    let ghost tail = last@.subrange(dot + 1, last@.len() as int);
    if last.len() - dot - 1 != e.len() {
        return false;
    }
    let mut k: usize = 0;
    while k < e.len()
        invariant
            e@ == ext@,
            tail == last@.subrange(dot + 1, last@.len() as int),
            tail.len() == e.len(),
            dot + 1 + e.len() == last.len(),
            0 <= k <= e.len(),
            forall|j: int| 0 <= j < k ==> ascii_lower(#[trigger] tail[j]) == ascii_lower(e@[j]),
        decreases e.len() - k,
    {
        assert(tail[k as int] == last@[dot + 1 + k]);
        if lower(last[dot + 1 + k]) != lower(e[k]) {
            assert(!eq_ignore_ascii_case(tail, ext@));
            return false;
        }
        k += 1;
    }
    true
}

// ---------------------------------------------------------------------------
// Create and Save As
// ---------------------------------------------------------------------------

/// Why a project cannot be created at `root`, if it cannot: the folder must
/// be a `.kiri` one, the title must not be blank, and no manifest may be
/// there already.
pub open spec fn new_project_fault(root: Seq<char>, title: Seq<char>, manifest_exists: bool) -> Option<
    Seq<char>,
> {
    if !has_kiri_extension(root) {
        Some("project directory must end in .kiri"@)
    } else if is_blank(title) {
        Some("project title cannot be empty"@)
    } else if manifest_exists {
        Some("project already exists at destination"@)
    } else {
        None
    }
}

/// The checks made before a project is created; `manifest_exists` says
/// whether `root` already holds a manifest.
pub fn check_new_project(root: &str, title: &str, manifest_exists: bool) -> (r: Result<(), ProjectError>)
    ensures
        reports(r, new_project_fault(root@, title@, manifest_exists)),
{
    if !kiri_extension(root) {
        return Err(ProjectError::Validation(owned("project directory must end in .kiri")));
    }
    if is_blank_text(title) {
        return Err(ProjectError::Validation(owned("project title cannot be empty")));
    }
    if manifest_exists {
        return Err(ProjectError::Validation(owned("project already exists at destination")));
    }
    Ok(())
}

/// Why a copy of `source` cannot be saved at `destination` under `title`,
/// if it cannot: nothing may exist there yet, it must be a `.kiri` folder,
/// the title must not be blank, and it may not lie inside the source.
pub open spec fn save_as_fault(
    source: Seq<char>,
    destination: Seq<char>,
    title: Seq<char>,
    destination_exists: bool,
) -> Option<Seq<char>> {
    if destination_exists {
        Some("Save As destination already exists"@)
    } else if !has_kiri_extension(destination) {
        Some("Save As destination must end in .kiri"@)
    } else if is_blank(title) {
        Some("project title cannot be empty"@)
    } else if path_starts_with(destination, source) {
        Some("Save As destination cannot be inside the source project"@)
    } else {
        None
    }
}

/// The checks made before a project is copied under a new name.
pub fn check_save_as(source: &str, destination: &str, title: &str, destination_exists: bool) -> (r:
    Result<(), ProjectError>)
    ensures
        reports(r, save_as_fault(source@, destination@, title@, destination_exists)),
{
    if destination_exists {
        return Err(ProjectError::Validation(owned("Save As destination already exists")));
    }
    if !kiri_extension(destination) {
        return Err(ProjectError::Validation(owned("Save As destination must end in .kiri")));
    }
    if is_blank_text(title) {
        return Err(ProjectError::Validation(owned("project title cannot be empty")));
    }
    if starts_with_path(destination, source) {
        return Err(
            ProjectError::Validation(owned("Save As destination cannot be inside the source project")),
        );
    }
    Ok(())
}

/// The copied manifest becomes a project of its own: a fresh id, the new
/// title, and `now` as its last change; everything else is kept.
pub fn rekey_copy(manifest: &mut ProjectManifest, title: &str, now: i64)
    ensures
        is_v4_uuid(final(manifest).id),
        final(manifest).title@ == title@,
        final(manifest).updated_at == now,
        final(manifest).schema_version == old(manifest).schema_version,
        final(manifest).created_at == old(manifest).created_at,
        final(manifest).frame_rate == old(manifest).frame_rate,
        final(manifest).duration == old(manifest).duration,
        final(manifest).sources == old(manifest).sources,
        final(manifest).tracks == old(manifest).tracks,
        final(manifest).edit_regions == old(manifest).edit_regions,
        final(manifest).artifacts == old(manifest).artifacts,
        final(manifest).cache_entries == old(manifest).cache_entries,
        final(manifest).recording_sessions == old(manifest).recording_sessions,
        final(manifest).editor == old(manifest).editor,
{
    manifest.id = new_id();
    manifest.title = owned(title);
    manifest.updated_at = now;
}

/// A project's last change after an autosave: `now`, or the previous value
/// again when the save failed, so the in-memory time never runs ahead of
/// what is on disk.
pub fn autosave_timestamp(previous: i64, now: i64, saved: bool) -> (t: i64)
    ensures
        t == (if saved { now } else { previous }),
{
    if saved {
        now
    } else {
        previous
    }
}

} // verus!
