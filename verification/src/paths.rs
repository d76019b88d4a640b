//! Path text: joining, extensions and separators, on `/`-separated paths as
//! the project stores them.
use vstd::prelude::*;
use crate::text::{chars_of, concat, owned, push_char, string_from_range};
use vstd::string::StringExecFns;

verus! {

/// `base` joined with `name`: an absolute `name` replaces `base`, and a `/`
/// is put between the two unless `base` is empty or already ends with one.
pub open spec fn joined(base: Seq<char>, name: Seq<char>) -> Seq<char> {
    if name.len() > 0 && name[0] == '/' {
        name
    } else if base.len() == 0 || base.last() == '/' {
        base + name
    } else {
        base + seq!['/'] + name
    }
}

/// `base` joined with `name` (as `Path::join` does on `/`-separated paths).
pub fn join_path(base: &str, name: &str) -> (out: String)
    ensures
        out@ == joined(base@, name@),
{
    let b = chars_of(base);
    let n = chars_of(name);
    if n.len() > 0 && n[0] == '/' {
        return owned(name);
    }
    if b.len() == 0 || b[b.len() - 1] == '/' {
        return concat(base, name);
    }
    let mut out = owned(base);
    push_char(&mut out, '/');
    out.append(name);
    out
}

/// `s` with every backslash turned into a forward slash.
pub open spec fn forward_slashes(s: Seq<char>) -> Seq<char> {
    s.map_values(|c: char| if c == '\\' { '/' } else { c })
}

/// `path` with every backslash replaced by a forward slash.
pub fn to_forward_slashes(path: &str) -> (out: String)
    ensures
        out@ == forward_slashes(path@),
{
    let s = chars_of(path);
    let mut out = String::new();
    let mut i: usize = 0;
    while i < s.len()
        invariant
            s@ == path@,
            0 <= i <= s.len(),
            out@ == forward_slashes(s@.take(i as int)),
        decreases s.len() - i,
    {
        let c = s[i];
        push_char(&mut out, if c == '\\' { '/' } else { c });
        assert(s@.take(i + 1) == s@.take(i as int).push(c));
        i += 1;
    }
    assert(s@.take(s.len() as int) == s@);
    out
}

/// Where the last path component of `s` begins: just after its last `/`.
pub open spec fn name_start(s: Seq<char>) -> int
    decreases s.len(),
{
    if s.len() == 0 {
        0
    } else if s.last() == '/' {
        s.len() as int
    } else {
        name_start(s.drop_last())
    }
}

/// Where the extension of the file name `f` begins: at its last `.`, unless
/// that dot opens the name; `f.len()` when there is no extension.
pub open spec fn extension_dot(f: Seq<char>) -> int
    decreases f.len(),
{
    if f.len() <= 1 {
        f.len() as int
    } else if f.last() == '.' {
        f.len() - 1
    } else {
        let d = extension_dot(f.drop_last());
        if d == f.len() - 1 {
            f.len() as int
        } else {
            d
        }
    }
}

/// `path` with the extension of its file name replaced by `ext`; a path
/// without a file name (empty, or ending in `/` or `..`) stays as it is.
pub open spec fn with_extension(path: Seq<char>, ext: Seq<char>) -> Seq<char> {
    let start = name_start(path);
    let file = path.subrange(start, path.len() as int);
    if file.len() == 0 || file == seq!['.', '.'] {
        path
    } else {
        path.subrange(0, start + extension_dot(file)) + seq!['.'] + ext
    }
}

proof fn lemma_name_start_bounds(s: Seq<char>)
    ensures
        0 <= name_start(s) <= s.len(),
        name_start(s) > 0 ==> s[name_start(s) - 1] == '/',
        forall|k: int| name_start(s) <= k < s.len() ==> s[k] != '/',
    decreases s.len(),
{
    if s.len() > 0 && s.last() != '/' {
        lemma_name_start_bounds(s.drop_last());
        assert forall|k: int| name_start(s) <= k < s.len() implies s[k] != '/' by {
            if k < s.len() - 1 {
                assert(s.drop_last()[k] == s[k]);
            }
        }
    }
}

proof fn lemma_extension_dot_bounds(f: Seq<char>)
    ensures
        0 < extension_dot(f) <= f.len() || (f.len() == 0 && extension_dot(f) == 0),
        extension_dot(f) < f.len() ==> f[extension_dot(f)] == '.',
        forall|k: int| extension_dot(f) < k < f.len() ==> f[k] != '.',
        extension_dot(f) == f.len() ==> forall|k: int| 0 < k < f.len() ==> f[k] != '.',
    decreases f.len(),
{
    if f.len() > 1 {
        let g = f.drop_last();
        lemma_extension_dot_bounds(g);
        assert forall|k: int| 0 <= k < g.len() implies g[k] == f[k] by {}
    }
}

/// The position just after the last `/` of `s`.
fn find_name_start(s: &Vec<char>) -> (r: usize)
    ensures
        r == name_start(s@),
{
    proof {
        lemma_name_start_bounds(s@);
    }
    let mut i: usize = s.len();
    while i > 0 && s[i - 1] != '/'
        invariant
            i <= s.len(),
            name_start(s@) <= i,
            forall|k: int| i <= k < s.len() ==> s@[k] != '/',
            0 <= name_start(s@) <= s.len(),
            name_start(s@) > 0 ==> s@[name_start(s@) - 1] == '/',
            forall|k: int| name_start(s@) <= k < s.len() ==> s@[k] != '/',
        decreases i,
    {
        i -= 1;
    }
    i
}

/// Where the extension of the file name `s[a..]` begins (see `extension_dot`).
pub fn extension_start(s: &Vec<char>, a: usize) -> (r: usize)
    requires
        a <= s.len(),
    ensures
        r == extension_dot(s@.subrange(a as int, s.len() as int)),
{
    let ghost f = s@.subrange(a as int, s.len() as int);
    proof {
        lemma_extension_dot_bounds(f);
    }
    let n = s.len() - a;
    if n <= 1 {
        return n;
    }
    let mut j: usize = n - 1;
    while j > 0 && s[a + j] != '.'
        invariant
            f == s@.subrange(a as int, s.len() as int),
            a + n == s.len(),
            n == f.len(),
            forall|k: int| 0 <= k < n ==> f[k] == s@[a + k],
            n > 1,
            j < n,
            forall|k: int| j < k < n ==> f[k] != '.',
            0 < extension_dot(f) <= f.len(),
            extension_dot(f) < f.len() ==> f[extension_dot(f)] == '.',
            forall|k: int| extension_dot(f) < k < f.len() ==> f[k] != '.',
            extension_dot(f) == f.len() ==> forall|k: int| 0 < k < f.len() ==> f[k] != '.',
        decreases j,
    {
        j -= 1;
    }
    proof {
        let ed = extension_dot(f);
        if j == 0 {
            if ed < n {
                assert(f[ed] == '.');
            }
        } else {
            assert(f[j as int] == '.');
            if ed == n {
                assert(f[j as int] != '.');
            }
        }
    }
    if j == 0 {
        n
    } else {
        j
    }
}

/// `path` with the extension of its file name replaced by `ext`
/// (`Path::with_extension`).
pub fn replace_extension(path: &str, ext: &str) -> (out: String)
    ensures
        out@ == with_extension(path@, ext@),
{
    let s = chars_of(path);
    let start = find_name_start(&s);
    proof {
        lemma_name_start_bounds(s@);
    }
    let ghost file = s@.subrange(start as int, s.len() as int);
    let flen = s.len() - start;
    if flen == 0 {
        return owned(path);
    }
    if flen == 2 && s[start] == '.' && s[start + 1] == '.' {
        assert(file =~= seq!['.', '.']);
        return owned(path);
    }
    proof {
        if file == seq!['.', '.'] {
            assert(file[0] == '.' && file[1] == '.');
        }
    }
    let dot = extension_start(&s, start);
    proof {
        lemma_extension_dot_bounds(file);
    }
    let mut out = string_from_range(&s, 0, start + dot);
    push_char(&mut out, '.');
    out.append(ext);
    out
}

/// `path` with `suffix` appended to its text (a sidecar named after a file).
pub fn append_suffix(path: &str, suffix: &str) -> (out: String)
    ensures
        out@ == path@ + suffix@,
{
    concat(path, suffix)
}

} // verus!
