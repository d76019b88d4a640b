//! The lexical path jail for paths stored inside a `.kiri` project.
//!
//! A stored path is relative, uses `/` (a `\` is read as `/`), and each of its
//! segments is an ordinary Windows file name: no `.`/`..`, no drive or stream
//! colon, no wildcard or shell characters, no trailing dot or space, and no
//! device name such as `CON` or `com1.txt`.
use vstd::prelude::*;
use crate::text::{chars_of, is_digit, string_from_chars};

verus! {

/// `\` read as `/`.
pub open spec fn slash_normalized(s: Seq<char>) -> Seq<char> {
    s.map_values(|c: char| if c == '\\' { '/' } else { c })
}

/// `s[a..b]` is a whole, non-empty segment of `s`: it is bounded by the ends of
/// `s` or by `/` on both sides and holds no `/` itself.
pub open spec fn is_segment(s: Seq<char>, a: int, b: int) -> bool {
    &&& 0 <= a < b <= s.len()
    &&& (a == 0 || s[a - 1] == '/')
    &&& (b == s.len() || s[b] == '/')
    &&& forall|k: int| a <= k < b ==> s[k] != '/'
}

/// Characters Windows refuses in a file name.
pub open spec fn is_forbidden_name_char(c: char) -> bool {
    c == '*' || c == '?' || c == '<' || c == '>' || c == '|' || c == '"' || c == '\0'
}

/// `c` is the letter `upper` in either case.
pub open spec fn letter_ci(c: char, upper: char, lower: char) -> bool {
    c == upper || c == lower
}

/// The part of a segment before its first `.`.
pub open spec fn stem(seg: Seq<char>) -> Seq<char> {
    if exists|k: int| 0 <= k < seg.len() && seg[k] == '.' {
        let k = choose|k: int|
            0 <= k < seg.len() && seg[k] == '.' && forall|j: int| 0 <= j < k ==> seg[j] != '.';
        seg.take(k)
    } else {
        seg
    }
}

/// `stem` is a Windows device name: `CON`, `PRN`, `AUX`, `NUL`, or `COM`/`LPT`
/// followed by one digit, in any letter case.
pub open spec fn is_device_name(stem: Seq<char>) -> bool {
    ||| stem.len() == 3 && letter_ci(stem[0], 'C', 'c') && letter_ci(stem[1], 'O', 'o')
        && letter_ci(stem[2], 'N', 'n')
    ||| stem.len() == 3 && letter_ci(stem[0], 'P', 'p') && letter_ci(stem[1], 'R', 'r')
        && letter_ci(stem[2], 'N', 'n')
    ||| stem.len() == 3 && letter_ci(stem[0], 'A', 'a') && letter_ci(stem[1], 'U', 'u')
        && letter_ci(stem[2], 'X', 'x')
    ||| stem.len() == 3 && letter_ci(stem[0], 'N', 'n') && letter_ci(stem[1], 'U', 'u')
        && letter_ci(stem[2], 'L', 'l')
    ||| stem.len() == 4 && letter_ci(stem[0], 'C', 'c') && letter_ci(stem[1], 'O', 'o')
        && letter_ci(stem[2], 'M', 'm') && is_digit(stem[3])
    ||| stem.len() == 4 && letter_ci(stem[0], 'L', 'l') && letter_ci(stem[1], 'P', 'p')
        && letter_ci(stem[2], 'T', 't') && is_digit(stem[3])
}

/// A non-empty segment that names an ordinary file or folder.
pub open spec fn is_ordinary_name(seg: Seq<char>) -> bool {
    &&& seg.len() > 0
    &&& seg != seq!['.']
    &&& seg != seq!['.', '.']
    &&& forall|k: int| 0 <= k < seg.len() ==> !is_forbidden_name_char(#[trigger] seg[k])
    &&& seg.last() != '.'
    &&& seg.last() != ' '
    &&& !is_device_name(stem(seg))
}

/// `value` may be stored as a project-relative path.
pub open spec fn stays_in_project(value: Seq<char>) -> bool {
    let n = slash_normalized(value);
    &&& value.len() > 0
    &&& forall|k: int| 0 <= k < value.len() ==> value[k] != '\0' && value[k] != ':'
    &&& n[0] != '/'
    &&& forall|a: int, b: int| is_segment(n, a, b) ==> is_ordinary_name(#[trigger] n.subrange(a, b))
}

/// Where the segment of `s` that starts at `i` ends: the next `/`, or the
/// end of `s`.
pub open spec fn segment_end(s: Seq<char>, i: int) -> int
    decreases s.len() - i,
{
    if i >= s.len() || i < 0 {
        s.len() as int
    } else if s[i] == '/' {
        i
    } else {
        segment_end(s, i + 1)
    }
}

proof fn lemma_segment_end(s: Seq<char>, i: int)
    requires
        0 <= i <= s.len(),
    ensures
        i <= segment_end(s, i) <= s.len(),
        segment_end(s, i) == s.len() || s[segment_end(s, i)] == '/',
        forall|k: int| i <= k < segment_end(s, i) ==> s[k] != '/',
    decreases s.len() - i,
{
    if i < s.len() && s[i] != '/' {
        lemma_segment_end(s, i + 1);
    }
}

/// What a path that stays in the project is like: it is not empty, holds no
/// colon (so no drive or stream) and no NUL, does not start at the root, has
/// a first segment, and every segment (with `\` read as `/`) is an ordinary
/// name: not `.` or `..`, without `*?<>|"`, not ending in `.` or a space,
/// and not a device name such as `CON` or `com1.txt`.
pub proof fn lemma_jail_law(value: Seq<char>)
    requires
        stays_in_project(value),
    ensures
        value.len() > 0,
        forall|k: int| 0 <= k < value.len() ==> value[k] != ':' && value[k] != '\0',
        slash_normalized(value)[0] != '/',
        is_segment(slash_normalized(value), 0, segment_end(slash_normalized(value), 0)),
        forall|a: int, b: int|
            #![trigger slash_normalized(value).subrange(a, b)]
            is_segment(slash_normalized(value), a, b) ==> {
                let seg = slash_normalized(value).subrange(a, b);
                &&& seg != seq!['.']
                &&& seg != seq!['.', '.']
                &&& forall|k: int| 0 <= k < seg.len() ==> !is_forbidden_name_char(#[trigger] seg[k])
                &&& seg.last() != '.' && seg.last() != ' '
                &&& !is_device_name(stem(seg))
            },
{
    let n = slash_normalized(value);
    lemma_segment_end(n, 0);
    assert(n.len() == value.len());
    assert(segment_end(n, 0) > 0) by {
        assert(n[0] != '/');
    }
    assert forall|a: int, b: int| #![trigger n.subrange(a, b)] is_segment(n, a, b) implies {
        let seg = n.subrange(a, b);
        &&& seg != seq!['.']
        &&& seg != seq!['.', '.']
        &&& forall|k: int| 0 <= k < seg.len() ==> !is_forbidden_name_char(#[trigger] seg[k])
        &&& seg.last() != '.' && seg.last() != ' '
        &&& !is_device_name(stem(seg))
    } by {
        assert(is_ordinary_name(n.subrange(a, b)));
    }
}

proof fn lemma_segment_unique_start(s: Seq<char>, start: int, a: int, b: int)
    requires
        0 <= start <= b <= s.len(),
        start == 0 || s[start - 1] == '/',
        forall|k: int| start <= k < b ==> s[k] != '/',
        is_segment(s, a, b),
    ensures
        a == start,
{
    if a < start {
        assert(s[start - 1] != '/');
    } else if a > start {
        assert(s[a - 1] != '/');
    }
}

/// `seg[k]` is the first `.` of `seg`.
proof fn lemma_stem_at(seg: Seq<char>, k: int)
    requires
        0 <= k < seg.len(),
        seg[k] == '.',
        forall|j: int| 0 <= j < k ==> seg[j] != '.',
    ensures
        stem(seg) == seg.take(k),
{
    let c = choose|c: int|
        0 <= c < seg.len() && seg[c] == '.' && forall|j: int| 0 <= j < c ==> seg[j] != '.';
    assert(0 <= c < seg.len() && seg[c] == '.' && forall|j: int| 0 <= j < c ==> seg[j] != '.');
    if c < k {
        assert(seg[c] != '.');
    } else if c > k {
        assert(seg[k] != '.');
    }
}

fn is_forbidden_char(c: char) -> (b: bool)
    ensures
        b == is_forbidden_name_char(c),
{
    c == '*' || c == '?' || c == '<' || c == '>' || c == '|' || c == '"' || c == '\0'
}

fn device_name_at(s: &Vec<char>, a: usize, e: usize) -> (b: bool)
    requires
        a <= e <= s.len(),
    ensures
        b == is_device_name(s@.subrange(a as int, e as int)),
{
    let len = e - a;
    if len == 3 {
        let (c0, c1, c2) = (s[a], s[a + 1], s[a + 2]);
        (c0 == 'C' || c0 == 'c') && (c1 == 'O' || c1 == 'o') && (c2 == 'N' || c2 == 'n')
            || (c0 == 'P' || c0 == 'p') && (c1 == 'R' || c1 == 'r') && (c2 == 'N' || c2 == 'n')
            || (c0 == 'A' || c0 == 'a') && (c1 == 'U' || c1 == 'u') && (c2 == 'X' || c2 == 'x')
            || (c0 == 'N' || c0 == 'n') && (c1 == 'U' || c1 == 'u') && (c2 == 'L' || c2 == 'l')
    } else if len == 4 {
        let (c0, c1, c2, c3) = (s[a], s[a + 1], s[a + 2], s[a + 3]);
        let digit = '0' <= c3 && c3 <= '9';
        (c0 == 'C' || c0 == 'c') && (c1 == 'O' || c1 == 'o') && (c2 == 'M' || c2 == 'm') && digit
            || (c0 == 'L' || c0 == 'l') && (c1 == 'P' || c1 == 'p') && (c2 == 'T' || c2 == 't')
            && digit
    } else {
        false
    }
}

/// Whether `s[a..b]` is an ordinary name.
fn ordinary_name_at(s: &Vec<char>, a: usize, b: usize) -> (ok: bool)
    requires
        a < b <= s.len(),
    ensures
        ok == is_ordinary_name(s@.subrange(a as int, b as int)),
{
    let ghost seg = s@.subrange(a as int, b as int);
    let mut k: usize = a;
    let mut first_dot: usize = b;
    while k < b
        invariant
            a <= k <= b <= s.len(),
            seg == s@.subrange(a as int, b as int),
            forall|j: int| 0 <= j < k - a ==> !is_forbidden_name_char(#[trigger] seg[j]),
            first_dot == b ==> forall|j: int| 0 <= j < k - a ==> seg[j] != '.',
            first_dot != b ==> a <= first_dot < k && s@[first_dot as int] == '.' && forall|j: int|
                0 <= j < first_dot - a ==> seg[j] != '.',
        decreases b - k,
    {
        if is_forbidden_char(s[k]) {
            assert(is_forbidden_name_char(seg[k - a]));
            return false;
        }
        if s[k] == '.' && first_dot == b {
            first_dot = k;
        }
        k += 1;
    }
    let last = s[b - 1];
    if last == '.' || last == ' ' {
        assert(seg.last() == last);
        return false;
    }
    proof {
        if first_dot < b {
            lemma_stem_at(seg, first_dot - a);
            assert(seg.take(first_dot - a) =~= s@.subrange(a as int, first_dot as int));
        } else {
            assert(stem(seg) == seg);
        }
        assert(seg.last() == '.' ==> false);
        if seg == seq!['.'] {
            assert(seg.last() == '.');
        }
        if seg == seq!['.', '.'] {
            assert(seg.last() == '.');
        }
    }
    !device_name_at(s, a, first_dot)
}

/// Checks that `value` stays inside the project and returns it with every `\`
/// turned into `/`.
pub fn jailed_path(value: &str) -> (out: Option<String>)
    ensures
        out is Some <==> stays_in_project(value@),
        out matches Some(p) ==> p@ == slash_normalized(value@),
{
    let raw = chars_of(value);
    let n = raw.len();
    if n == 0 {
        return None;
    }
    let mut norm: Vec<char> = Vec::new();
    let mut i: usize = 0;
    while i < n
        invariant
            raw@ == value@,
            n == raw.len(),
            0 <= i <= n,
            norm@ == slash_normalized(raw@.take(i as int)),
            forall|k: int| 0 <= k < i ==> raw@[k] != '\0' && raw@[k] != ':',
        decreases n - i,
    {
        let c = raw[i];
        if c == '\0' || c == ':' {
            return None;
        }
        norm.push(if c == '\\' { '/' } else { c });
        assert(raw@.take(i + 1) == raw@.take(i as int).push(c));
        assert(slash_normalized(raw@.take(i + 1)) =~= slash_normalized(raw@.take(i as int)).push(
            if c == '\\' { '/' } else { c },
        ));
        i += 1;
    }
    assert(raw@.take(n as int) == raw@);
    let ghost sn = slash_normalized(value@);
    assert(norm@ == sn);
    if norm[0] == '/' {
        return None;
    }
    let mut start: usize = 0;
    let mut j: usize = 0;
    while j < n
        invariant
            norm@ == sn,
            sn == slash_normalized(value@),
            value@.len() == n,
            n == norm.len(),
            0 <= start <= j <= n,
            start == 0 || sn[start - 1] == '/',
            forall|k: int| start <= k < j ==> sn[k] != '/',
            forall|a: int, b: int|
                is_segment(sn, a, b) && b < start ==> is_ordinary_name(#[trigger] sn.subrange(a, b)),
        decreases n - j,
    {
        if norm[j] == '/' {
            if start < j {
                if !ordinary_name_at(&norm, start, j) {
                    assert(is_segment(sn, start as int, j as int));
                    assert(!is_ordinary_name(sn.subrange(start as int, j as int)));
                    return None;
                }
            }
            proof {
                assert forall|a: int, b: int|
                    is_segment(sn, a, b) && b < j + 1 implies is_ordinary_name(
                    #[trigger] sn.subrange(a, b),
                ) by {
                    if b >= start {
                        if b < j {
                            assert(sn[b] == '/');
                        } else {
                            lemma_segment_unique_start(sn, start as int, a, b);
                        }
                    }
                }
            }
            start = j + 1;
        }
        j += 1;
    }
    if start < n {
        if !ordinary_name_at(&norm, start, n) {
            assert(is_segment(sn, start as int, n as int));
            return None;
        }
    }
    proof {
        assert forall|a: int, b: int| is_segment(sn, a, b) implies is_ordinary_name(
            #[trigger] sn.subrange(a, b),
        ) by {
            if b >= start {
                if b < n {
                    assert(sn[b] == '/');
                } else {
                    lemma_segment_unique_start(sn, start as int, a, b);
                }
            }
        }
    }
    Some(string_from_chars(&norm))
}

/// A character that may stand in a plain file or folder name: an ASCII
/// letter, a digit, `-`, `_` or `.`.
pub open spec fn is_plain_name_char(c: char) -> bool {
    ||| 'a' <= c <= 'z'
    ||| 'A' <= c <= 'Z'
    ||| is_digit(c)
    ||| c == '-' || c == '_' || c == '.'
}

/// A device name is short: three letters, or three letters and a digit. So a
/// stem of any other length (such as `contract`) is never taken for a device.
pub proof fn lemma_device_names_are_short(s: Seq<char>)
    ensures
        is_device_name(s) ==> s.len() == 3 || (s.len() == 4 && is_digit(s[3])),
        s.len() != 3 && s.len() != 4 ==> !is_device_name(s),
{
}

/// A segment made of letters, digits, `-`, `_` and `.`, that neither starts
/// nor ends with `.` and whose stem is not three or four characters long, is
/// an ordinary name.
pub proof fn lemma_plain_segment_is_ordinary(seg: Seq<char>)
    requires
        seg.len() > 0,
        forall|k: int| 0 <= k < seg.len() ==> is_plain_name_char(#[trigger] seg[k]),
        seg[0] != '.',
        seg.last() != '.',
        stem(seg).len() != 3 && stem(seg).len() != 4,
    ensures
        is_ordinary_name(seg),
{
    lemma_device_names_are_short(stem(seg));
    if seg == seq!['.'] {
        assert(seg[0] == '.');
    }
    if seg == seq!['.', '.'] {
        assert(seg[0] == '.');
    }
    assert forall|k: int| 0 <= k < seg.len() implies !is_forbidden_name_char(#[trigger] seg[k]) by {
        assert(is_plain_name_char(seg[k]));
    }
    assert(is_plain_name_char(seg[seg.len() - 1]));
}

/// A path `dir/file` of two plain segments, each with a stem that is not
/// three or four characters long (`assets/contract.png`), stays in the
/// project: `jailed_path` accepts it.
pub proof fn lemma_plain_two_segment_path_stays(dir: Seq<char>, file: Seq<char>)
    requires
        dir.len() > 0,
        file.len() > 0,
        forall|k: int| 0 <= k < dir.len() ==> is_plain_name_char(#[trigger] dir[k]),
        forall|k: int| 0 <= k < file.len() ==> is_plain_name_char(#[trigger] file[k]),
        dir[0] != '.' && dir.last() != '.',
        file[0] != '.' && file.last() != '.',
        stem(dir).len() != 3 && stem(dir).len() != 4,
        stem(file).len() != 3 && stem(file).len() != 4,
    ensures
        stays_in_project(dir + seq!['/'] + file),
{
    let v = dir + seq!['/'] + file;
    let d = dir.len() as int;
    assert forall|k: int| 0 <= k < v.len() implies v[k] != '/' || k == d by {
        if k < d {
            assert(v[k] == dir[k]);
            assert(is_plain_name_char(dir[k]));
        } else if k > d {
            assert(v[k] == file[k - d - 1]);
            assert(is_plain_name_char(file[k - d - 1]));
        }
    }
    assert forall|k: int| 0 <= k < v.len() implies v[k] != '\\' && v[k] != '\0' && v[k] != ':' by {
        if k < d {
            assert(v[k] == dir[k]);
            assert(is_plain_name_char(dir[k]));
        } else if k > d {
            assert(v[k] == file[k - d - 1]);
            assert(is_plain_name_char(file[k - d - 1]));
        }
    }
    let n = slash_normalized(v);
    assert(n =~= v);
    assert(n[0] == dir[0]);
    assert(v[d] == '/');
    lemma_plain_segment_is_ordinary(dir);
    lemma_plain_segment_is_ordinary(file);
    assert forall|a: int, b: int| is_segment(n, a, b) implies is_ordinary_name(
        #[trigger] n.subrange(a, b),
    ) by {
        if a <= d && d < b {
            assert(n[d] == '/');
        } else if b <= d {
            if a > 0 {
                assert(n[a - 1] != '/');
            }
            if b < d {
                assert(n[b] != '/');
            }
            assert(n.subrange(a, b) =~= dir);
        } else {
            if a - 1 > d {
                assert(n[a - 1] != '/');
            }
            if b < v.len() {
                assert(n[b] != '/');
            }
            assert(n.subrange(a, b) =~= file);
        }
    }
}

/// Where the segment of `s` that holds position `i` starts: just after the
/// last `/` before `i`, or at 0.
pub open spec fn segment_start(s: Seq<char>, i: int) -> int
    decreases i,
{
    if i <= 0 {
        0
    } else if s[i - 1] == '/' {
        i
    } else {
        segment_start(s, i - 1)
    }
}

proof fn lemma_segment_start(s: Seq<char>, i: int)
    requires
        0 <= i <= s.len(),
    ensures
        0 <= segment_start(s, i) <= i,
        segment_start(s, i) == 0 || s[segment_start(s, i) - 1] == '/',
        forall|k: int| segment_start(s, i) <= k < i ==> s[k] != '/',
    decreases i,
{
    if i > 0 && s[i - 1] != '/' {
        lemma_segment_start(s, i - 1);
    }
}

/// Position `k` that holds no `/` lies in a whole segment.
proof fn lemma_segment_around(s: Seq<char>, k: int)
    requires
        0 <= k < s.len(),
        s[k] != '/',
    ensures
        is_segment(s, segment_start(s, k), segment_end(s, k)),
        segment_start(s, k) <= k < segment_end(s, k),
{
    lemma_segment_start(s, k);
    lemma_segment_end(s, k);
    let a = segment_start(s, k);
    let b = segment_end(s, k);
    assert(b > k) by {
        if b == k {
            assert(s[k] == '/');
        }
    }
    assert forall|j: int| a <= j < b implies s[j] != '/' by {
        if j >= k {
        }
    }
}

/// A path holding `*`, `?`, `<`, `>`, `|`, `"`, a NUL or a colon anywhere
/// is refused.
pub proof fn lemma_jail_refuses_forbidden_char(value: Seq<char>, k: int)
    requires
        0 <= k < value.len(),
        value[k] == '*' || value[k] == '?' || value[k] == '<' || value[k] == '>' || value[k] == '|'
            || value[k] == '"' || value[k] == '\0' || value[k] == ':',
    ensures
        !stays_in_project(value),
{
    let n = slash_normalized(value);
    if value[k] != '\0' && value[k] != ':' {
        assert(n[k] == value[k]);
        lemma_segment_around(n, k);
        let a = segment_start(n, k);
        let b = segment_end(n, k);
        let seg = n.subrange(a, b);
        assert(seg[k - a] == n[k]);
        if stays_in_project(value) {
            assert(is_ordinary_name(seg));
            assert(!is_forbidden_name_char(seg[k - a]));
        }
    }
}

/// A path that ends in `.` or a space, or that starts at the root (`/` or
/// `\`), is refused.
pub proof fn lemma_jail_refuses_trailing_dot_or_root(value: Seq<char>)
    requires
        value.len() > 0,
        value.last() == '.' || value.last() == ' ' || value[0] == '/' || value[0] == '\\',
    ensures
        !stays_in_project(value),
{
    let n = slash_normalized(value);
    let k = value.len() - 1;
    if value[0] != '/' && value[0] != '\\' {
        assert(n[k] == value[k]);
        lemma_segment_around(n, k);
        lemma_segment_end(n, k);
        let a = segment_start(n, k);
        let b = segment_end(n, k);
        assert(b == n.len());
        let seg = n.subrange(a, b);
        assert(seg.last() == n[k]);
        if stays_in_project(value) {
            assert(is_ordinary_name(seg));
        }
    }
}

/// A path with a `.` or `..` segment (between separators, `/` or `\`, or
/// the ends of the path) is refused.
pub proof fn lemma_jail_refuses_dot_segments(value: Seq<char>, a: int, b: int)
    requires
        0 <= a && a < b && b <= value.len() && b - a <= 2,
        forall|k: int| a <= k < b ==> value[k] == '.',
        a == 0 || value[a - 1] == '/' || value[a - 1] == '\\',
        b == value.len() || value[b] == '/' || value[b] == '\\',
    ensures
        !stays_in_project(value),
{
    let n = slash_normalized(value);
    assert(is_segment(n, a, b));
    let seg = n.subrange(a, b);
    if b - a == 1 {
        assert(seg =~= seq!['.']);
    } else {
        assert(seg =~= seq!['.', '.']);
    }
    if stays_in_project(value) {
        assert(is_ordinary_name(seg));
    }
}

/// `c` is the ASCII capital `upper` or its lower-case letter.
pub open spec fn is_ascii_letter_ci(c: char, upper: char) -> bool {
    c == upper || c as u32 == upper as u32 + 32
}

/// `s[a..a + 3]` spells `word` (three capitals) in any ASCII case.
pub open spec fn spells_ci(s: Seq<char>, a: int, word: Seq<char>) -> bool {
    &&& word.len() == 3
    &&& forall|j: int| 0 <= j < 3 ==> is_ascii_letter_ci(s[a + j], #[trigger] word[j])
}

/// The Windows device words, in capitals.
pub open spec fn is_device_word(word: Seq<char>) -> bool {
    word == "CON"@ || word == "PRN"@ || word == "AUX"@ || word == "NUL"@
}

/// The Windows device words that take a digit, in capitals.
pub open spec fn is_numbered_device_word(word: Seq<char>) -> bool {
    word == "COM"@ || word == "LPT"@
}

proof fn lemma_device_words()
    ensures
        "CON"@ =~= seq!['C', 'O', 'N'],
        "PRN"@ =~= seq!['P', 'R', 'N'],
        "AUX"@ =~= seq!['A', 'U', 'X'],
        "NUL"@ =~= seq!['N', 'U', 'L'],
        "COM"@ =~= seq!['C', 'O', 'M'],
        "LPT"@ =~= seq!['L', 'P', 'T'],
{
    reveal_strlit("CON");
    reveal_strlit("PRN");
    reveal_strlit("AUX");
    reveal_strlit("NUL");
    reveal_strlit("COM");
    reveal_strlit("LPT");
}

proof fn lemma_letter_ci(c: char, upper: char, lower: char)
    requires
        is_ascii_letter_ci(c, upper),
        upper as u32 + 32 == lower as u32,
    ensures
        letter_ci(c, upper, lower),
{
    if c != upper {
        assert(c as u32 == lower as u32);
    }
}

proof fn lemma_device_spelling(st: Seq<char>, word: Seq<char>)
    requires
        spells_ci(st, 0, word),
        (is_device_word(word) && st.len() == 3) || (is_numbered_device_word(word) && st.len() == 4
            && is_digit(st[3])),
    ensures
        is_device_name(st),
        forall|j: int| 0 <= j < st.len() ==> st[j] != '.',
{
    lemma_device_words();
    assert(is_ascii_letter_ci(st[0int + 0], word[0]));
    assert(is_ascii_letter_ci(st[0int + 1], word[1]));
    assert(is_ascii_letter_ci(st[0int + 2], word[2]));
    let (u0, u1, u2) = (word[0], word[1], word[2]);
    let (l0, l1, l2): (char, char, char) = if word == "CON"@ {
        ('c', 'o', 'n')
    } else if word == "PRN"@ {
        ('p', 'r', 'n')
    } else if word == "AUX"@ {
        ('a', 'u', 'x')
    } else if word == "NUL"@ {
        ('n', 'u', 'l')
    } else if word == "COM"@ {
        ('c', 'o', 'm')
    } else {
        ('l', 'p', 't')
    };
    lemma_letter_ci(st[0], u0, l0);
    lemma_letter_ci(st[1], u1, l1);
    lemma_letter_ci(st[2], u2, l2);
}

/// A path with a segment named after a Windows device is refused: `CON`,
/// `PRN`, `AUX` or `NUL`, or `COM` or `LPT` followed by one digit, in any
/// letter case, alone or before a `.` and an extension (`aux`, `Con.txt`,
/// `com1.log`, `lpt9`).
pub proof fn lemma_jail_refuses_device_names(value: Seq<char>, a: int, b: int, word: Seq<char>)
    requires
        0 <= a < b <= value.len(),
        a == 0 || value[a - 1] == '/' || value[a - 1] == '\\',
        b == value.len() || value[b] == '/' || value[b] == '\\',
        forall|k: int| a <= k < b ==> value[k] != '/' && value[k] != '\\',
        spells_ci(value, a, word),
        (is_device_word(word) && (b == a + 3 || (b > a + 3 && value[a + 3] == '.'))) || (
        is_numbered_device_word(word) && b >= a + 4 && is_digit(value[a + 3]) && (b == a + 4
            || value[a + 4] == '.')),
    ensures
        !stays_in_project(value),
{
    lemma_device_words();
    let n = slash_normalized(value);
    assert(is_segment(n, a, b));
    let seg = n.subrange(a, b);
    let len: int = if is_device_word(word) {
        3
    } else {
        4
    };
    let st = value.subrange(a, a + len);
    assert forall|j: int| 0 <= j < 3 implies is_ascii_letter_ci(st[0int + j], #[trigger] word[j]) by {
        assert(is_ascii_letter_ci(value[a + j], word[j]));
    }
    lemma_device_spelling(st, word);
    assert forall|j: int| 0 <= j < len implies seg[j] != '.' by {
        assert(seg[j] == st[j]);
    }
    if b == a + len {
        assert forall|k: int| 0 <= k < seg.len() implies seg[k] != '.' by {}
        assert(stem(seg) == seg);
    } else {
        assert(n[a + len] == value[a + len]);
        assert(seg[len] == '.');
        lemma_stem_at(seg, len);
    }
    assert(stem(seg) =~= st);
    if stays_in_project(value) {
        assert(is_ordinary_name(seg));
    }
}

} // verus!
