//! Character-level helpers shared by the path, naming and formatting code.
use vstd::prelude::*;
use vstd::string::StringExecFns;

verus! {

/// The characters of `s`, in order.
pub fn chars_of(s: &str) -> (out: Vec<char>)
    ensures
        out@ == s@,
{
    let mut out: Vec<char> = Vec::new();
    for c in it: s.chars()
        invariant
            out@ == it.seq().take(it.index() as int),
            it.seq() == s@,
    {
        out.push(c);
    }
    out
}

/// Appends one character (`String::push`).
#[verifier::external_body]
pub(crate) fn push_char(s: &mut String, c: char)
    ensures
        final(s)@ == old(s)@.push(c),
{
    s.push(c);
}

/// A `String` holding `chars[lo..hi]`.
pub fn string_from_range(chars: &Vec<char>, lo: usize, hi: usize) -> (out: String)
    requires
        lo <= hi <= chars.len(),
    ensures
        out@ == chars@.subrange(lo as int, hi as int),
{
    let mut out = String::new();
    let mut i: usize = lo;
    while i < hi
        invariant
            lo <= i <= hi <= chars.len(),
            out@ == chars@.subrange(lo as int, i as int),
        decreases hi - i,
    {
        push_char(&mut out, chars[i]);
        assert(chars@.subrange(lo as int, i + 1) == chars@.subrange(lo as int, i as int).push(
            chars@[i as int],
        ));
        i += 1;
    }
    out
}

/// A `String` holding all of `chars`.
pub fn string_from_chars(chars: &Vec<char>) -> (out: String)
    ensures
        out@ == chars@,
{
    let out = string_from_range(chars, 0, chars.len());
    assert(chars@.subrange(0, chars@.len() as int) == chars@);
    out
}

/// A fresh `String` with the contents of `s`.
pub fn owned(s: &str) -> (out: String)
    ensures
        out@ == s@,
{
    String::from_str(s)
}

/// `a` followed by `b`.
pub fn concat(a: &str, b: &str) -> (out: String)
    ensures
        out@ == a@ + b@,
{
    let mut out = String::from_str(a);
    out.append(b);
    out
}

/// Whether the two texts are equal.
pub fn same_text(a: &str, b: &str) -> (eq: bool)
    ensures
        eq == (a@ == b@),
{
    let x = chars_of(a);
    let y = chars_of(b);
    if x.len() != y.len() {
        return false;
    }
    let mut i: usize = 0;
    while i < x.len()
        invariant
            x@ == a@,
            y@ == b@,
            x.len() == y.len(),
            0 <= i <= x.len(),
            forall|k: int| 0 <= k < i ==> x@[k] == y@[k],
        decreases x.len() - i,
    {
        if x[i] != y[i] {
            return false;
        }
        i += 1;
    }
    assert(x@ =~= y@);
    true
}

/// Whether `c` is a decimal ASCII digit.
pub open spec fn is_digit(c: char) -> bool {
    '0' <= c <= '9'
}

/// The value of a decimal ASCII digit.
pub open spec fn digit_value(c: char) -> int {
    (c as int) - ('0' as int)
}

/// The ASCII digit for `d` in `0..10`.
pub open spec fn digit_char(d: int) -> char {
    ((d + ('0' as int)) as u32) as char
}

/// The decimal text of `n`, with no leading zeros (`"0"` for zero).
pub open spec fn decimal(n: nat) -> Seq<char>
    decreases n,
{
    if n < 10 {
        seq![digit_char(n as int)]
    } else {
        decimal(n / 10).push(digit_char((n % 10) as int))
    }
}

/// The decimal text of `n`, left-padded with zeros to at least `width` digits.
pub open spec fn zero_padded(n: nat, width: nat) -> Seq<char> {
    let d = decimal(n);
    if d.len() >= width {
        d
    } else {
        Seq::new((width - d.len()) as nat, |i: int| '0') + d
    }
}

fn digit_to_char(d: u64) -> (c: char)
    requires
        d < 10,
    ensures
        c == digit_char(d as int),
{
    let c: char = if d == 0 {
        '0'
    } else if d == 1 {
        '1'
    } else if d == 2 {
        '2'
    } else if d == 3 {
        '3'
    } else if d == 4 {
        '4'
    } else if d == 5 {
        '5'
    } else if d == 6 {
        '6'
    } else if d == 7 {
        '7'
    } else if d == 8 {
        '8'
    } else {
        '9'
    };
    c
}

/// The decimal digits of `n`.
pub fn decimal_chars(n: u64) -> (out: Vec<char>)
    ensures
        out@ == decimal(n as nat),
    decreases n,
{
    if n < 10 {
        let mut v = Vec::new();
        v.push(digit_to_char(n));
        v
    } else {
        let mut v = decimal_chars(n / 10);
        v.push(digit_to_char(n % 10));
        v
    }
}

/// The decimal text of `n`.
pub fn decimal_string(n: u64) -> (out: String)
    ensures
        out@ == decimal(n as nat),
{
    let v = decimal_chars(n);
    string_from_chars(&v)
}

/// The decimal text of `n`, zero-padded to `width` digits.
pub fn zero_padded_string(n: u64, width: usize) -> (out: String)
    ensures
        out@ == zero_padded(n as nat, width as nat),
{
    let digits = decimal_chars(n);
    let mut out = String::new();
    let mut pad: usize = 0;
    if digits.len() < width {
        while pad < width - digits.len()
            invariant
                digits.len() < width,
                pad <= width - digits.len(),
                out@ == Seq::new(pad as nat, |i: int| '0'),
            decreases width - digits.len() - pad,
        {
            push_char(&mut out, '0');
            pad += 1;
            assert(out@ =~= Seq::new(pad as nat, |i: int| '0'));
        }
    }
    let tail = string_from_chars(&digits);
    out.append(tail.as_str());
    assert(out@ =~= zero_padded(n as nat, width as nat));
    out
}

} // verus!

verus! {

/// How reading an unsigned decimal number ended.
#[derive(Clone, Copy, Debug, PartialEq, Eq, Structural)]
pub enum UnsignedParse {
    Value(u64),
    Empty,
    InvalidDigit,
    Overflow,
}

/// Reads the digits `d` after the value `acc` read so far, left to right:
/// the first non-digit is an invalid digit, and the first digit that takes
/// the value above `max` is an overflow.
pub open spec fn scan_digits(d: Seq<char>, acc: nat, max: nat) -> UnsignedParse
    decreases d.len(),
{
    if d.len() == 0 {
        UnsignedParse::Value(acc as u64)
    } else if !is_digit(d[0]) {
        UnsignedParse::InvalidDigit
    } else {
        let v = acc * 10 + digit_value(d[0]);
        if v > max {
            UnsignedParse::Overflow
        } else {
            scan_digits(d.skip(1), v as nat, max)
        }
    }
}

/// An unsigned integer no larger than `max` read from `s` the way Rust's
/// `from_str` reads one: an optional `+` and at least one decimal digit,
/// nothing else.
pub open spec fn parse_unsigned_spec(s: Seq<char>, max: nat) -> UnsignedParse {
    if s.len() == 0 {
        UnsignedParse::Empty
    } else if s == seq!['+'] {
        UnsignedParse::InvalidDigit
    } else if s[0] == '+' {
        scan_digits(s.skip(1), 0, max)
    } else {
        scan_digits(s, 0, max)
    }
}

proof fn lemma_scan_concat(d1: Seq<char>, d2: Seq<char>, acc: nat, max: nat, v: u64)
    requires
        acc <= max <= u64::MAX,
        scan_digits(d1, acc, max) == UnsignedParse::Value(v),
    ensures
        scan_digits(d1 + d2, acc, max) == scan_digits(d2, v as nat, max),
        v <= max,
    decreases d1.len(),
{
    if d1.len() == 0 {
        assert(d1 + d2 =~= d2);
    } else {
        let w = acc * 10 + digit_value(d1[0]);
        assert((d1 + d2)[0] == d1[0]);
        assert((d1 + d2).skip(1) =~= d1.skip(1) + d2);
        lemma_scan_concat(d1.skip(1), d2, w as nat, max, v);
    }
}

proof fn lemma_digit_char(d: int)
    requires
        0 <= d < 10,
    ensures
        is_digit(digit_char(d)),
        digit_value(digit_char(d)) == d,
{
    assert(((d + ('0' as int)) as u32) as int == d + 48);
}

/// Every character of a decimal text is a digit.
pub proof fn lemma_decimal_digits(n: nat)
    ensures
        decimal(n).len() > 0,
        forall|k: int| 0 <= k < decimal(n).len() ==> is_digit(#[trigger] decimal(n)[k]),
    decreases n,
{
    if n < 10 {
        lemma_digit_char(n as int);
    } else {
        lemma_decimal_digits(n / 10);
        lemma_digit_char((n % 10) as int);
    }
}

/// Reading back the decimal text of `n` gives `n`, when `n` is within `max`.
pub proof fn lemma_decimal_parses(n: nat, max: nat)
    requires
        n <= max <= u64::MAX,
    ensures
        parse_unsigned_spec(decimal(n), max) == UnsignedParse::Value(n as u64),
    decreases n,
{
    lemma_decimal_digits(n);
    lemma_scan_decimal(n, max);
    let d = decimal(n);
    assert(is_digit(d[0]));
    if d == seq!['+'] {
        assert(d[0] == '+');
    }
}

proof fn lemma_scan_decimal(n: nat, max: nat)
    requires
        n <= max <= u64::MAX,
    ensures
        scan_digits(decimal(n), 0, max) == UnsignedParse::Value(n as u64),
    decreases n,
{
    reveal_with_fuel(scan_digits, 2);
    if n < 10 {
        lemma_digit_char(n as int);
        let d = decimal(n);
        assert(d.skip(1) =~= Seq::<char>::empty());
    } else {
        lemma_scan_decimal(n / 10, max);
        let c = digit_char((n % 10) as int);
        lemma_digit_char((n % 10) as int);
        lemma_scan_concat(decimal(n / 10), seq![c], 0, max, (n / 10) as u64);
        assert(decimal(n / 10) + seq![c] =~= decimal(n));
        assert(seq![c].skip(1) =~= Seq::<char>::empty());
        assert((n / 10) * 10 + n % 10 == n);
    }
}

fn digit_of(c: char) -> (d: u64)
    requires
        is_digit(c),
    ensures
        d == digit_value(c),
{
    (c as u32 - '0' as u32) as u64
}

/// Reads an unsigned decimal number no larger than `max` from `s`.
pub fn parse_unsigned(s: &str, max: u64) -> (r: UnsignedParse)
    ensures
        r == parse_unsigned_spec(s@, max as nat),
        r matches UnsignedParse::Value(v) ==> v <= max,
{
    let c = chars_of(s);
    if c.len() == 0 {
        return UnsignedParse::Empty;
    }
    if c.len() == 1 && c[0] == '+' {
        assert(c@ =~= seq!['+']);
        return UnsignedParse::InvalidDigit;
    }
    proof {
        if c@ == seq!['+'] {
            assert(c@.len() == 1 && c@[0] == '+');
        }
    }
    let start: usize = if c[0] == '+' { 1 } else { 0 };
    let ghost digits = c@.skip(start as int);
    assert(digits == (if c@[0] == '+' { c@.skip(1) } else { c@ }));
    assert(parse_unsigned_spec(s@, max as nat) == scan_digits(digits, 0, max as nat));
    let mut acc: u64 = 0;
    let mut i: usize = start;
    while i < c.len()
        invariant
            c@ == s@,
            start <= i <= c.len(),
            acc <= max,
            digits == c@.skip(start as int),
            parse_unsigned_spec(s@, max as nat) == scan_digits(
                c@.skip(i as int),
                acc as nat,
                max as nat,
            ),
        decreases c.len() - i,
    {
        let ch = c[i];
        assert(c@.skip(i as int).len() > 0);
        assert(c@.skip(i as int)[0] == ch);
        if !('0' <= ch && ch <= '9') {
            assert(!is_digit(c@.skip(i as int)[0]));
            assert(scan_digits(c@.skip(i as int), acc as nat, max as nat)
                == UnsignedParse::InvalidDigit);
            return UnsignedParse::InvalidDigit;
        }
        let d = digit_of(ch);
        if d > max || acc > (max - d) / 10 {
            assert(acc * 10 + d > max) by (nonlinear_arith)
                requires
                    d > max || acc > (max - d) / 10,
            ;
            assert(digit_value(c@.skip(i as int)[0]) == d);
            assert(scan_digits(c@.skip(i as int), acc as nat, max as nat)
                == UnsignedParse::Overflow);
            return UnsignedParse::Overflow;
        }
        assert(acc * 10 + d <= max) by (nonlinear_arith)
            requires
                acc <= (max - d) / 10,
                d <= max,
        ;
        assert(c@.skip(i as int).skip(1) =~= c@.skip(i + 1));
        acc = acc * 10 + d;
        i += 1;
    }
    UnsignedParse::Value(acc)
}

} // verus!
