//! Argument handling of the capture diagnostic tools: optional numeric
//! arguments, the recording length they accept, and window size restores.
use vstd::prelude::*;
use crate::text::{concat, owned, parse_unsigned, parse_unsigned_spec, UnsignedParse};

verus! {

/// The reason Rust's integer parser gives for `p` (`ParseIntError`'s text).
pub open spec fn parse_failure_text(p: UnsignedParse) -> Seq<char> {
    match p {
        UnsignedParse::Empty => "cannot parse integer from empty string"@,
        UnsignedParse::InvalidDigit => "invalid digit found in string"@,
        _ => "number too large to fit in target type"@,
    }
}

/// The message for an optional argument `name` given as `text` that is no
/// number.
pub open spec fn invalid_value_text(name: Seq<char>, text: Seq<char>, p: UnsignedParse) -> Seq<char> {
    "invalid "@ + name + " '"@ + text + "': "@ + parse_failure_text(p) + "; check CLI usage"@
}

fn failure_text(p: UnsignedParse) -> (s: &'static str)
    requires
        !(p is Value),
    ensures
        s@ == parse_failure_text(p),
{
    match p {
        UnsignedParse::Empty => "cannot parse integer from empty string",
        UnsignedParse::InvalidDigit => "invalid digit found in string",
        _ => "number too large to fit in target type",
    }
}

/// An optional numeric argument no larger than `max`: its default when it
/// is missing, its value when it reads as one, and an error naming it
/// otherwise.
pub fn parse_optional_bounded(value: Option<String>, default: u64, max: u64, name: &str) -> (r:
    Result<u64, String>)
    ensures
        value is None ==> r == Ok::<u64, String>(default),
        value matches Some(t) ==> match parse_unsigned_spec(t@, max as nat) {
            UnsignedParse::Value(v) => r == Ok::<u64, String>(v),
            p => r matches Err(m) && m@ == invalid_value_text(name@, t@, p),
        },
{
    match value {
        None => Ok(default),
        Some(text) => {
            let p = parse_unsigned(text.as_str(), max);
            match p {
                UnsignedParse::Value(v) => Ok(v),
                _ => {
                    let mut m = concat("invalid ", name);
                    m.append(" '");
                    m.append(text.as_str());
                    m.append("': ");
                    m.append(failure_text(p));
                    m.append("; check CLI usage");
                    Err(m)
                },
            }
        },
    }
}

/// An optional `u64` argument, as `parse_optional_bounded` with the full
/// `u64` range.
pub fn parse_optional(value: Option<String>, default: u64, name: &str) -> (r: Result<u64, String>)
    ensures
        value is None ==> r == Ok::<u64, String>(default),
        value matches Some(t) ==> match parse_unsigned_spec(t@, u64::MAX as nat) {
            UnsignedParse::Value(v) => r == Ok::<u64, String>(v),
            p => r matches Err(m) && m@ == invalid_value_text(name@, t@, p),
        },
{
    parse_optional_bounded(value, default, u64::MAX, name)
}

/// The longest diagnostic recording, in seconds.
pub const MAX_CAPTURE_SECONDS: u64 = 3600;

/// A diagnostic recording lasts from one second to an hour.
pub fn check_capture_seconds(seconds: u64) -> (r: Result<u64, String>)
    ensures
        1 <= seconds <= MAX_CAPTURE_SECONDS ==> r == Ok::<u64, String>(seconds),
        !(1 <= seconds <= MAX_CAPTURE_SECONDS) ==> (r matches Err(m) && m@ == "invalid seconds '"@
            + crate::text::decimal(seconds as nat) + "'; expected 1..=3600"@),
{
    if seconds == 0 || seconds > MAX_CAPTURE_SECONDS {
        let mut m = owned("invalid seconds '");
        let d = crate::text::decimal_string(seconds);
        m.append(d.as_str());
        m.append("'; expected 1..=3600");
        return Err(m);
    }
    Ok(seconds)
}

/// The extent a window is restored to after a resize test: the distance
/// between two edges, kept within `1..=16384`.
pub open spec fn restore_extent_of(low: i32, high: i32) -> int {
    let d = high - low;
    if d < 1 {
        1
    } else if d > 16_384 {
        16_384
    } else {
        d
    }
}

pub fn restore_extent(low: i32, high: i32) -> (e: i32)
    ensures
        e == restore_extent_of(low, high),
        1 <= e <= 16_384,
{
    let d: i64 = high as i64 - low as i64;
    if d < 1 {
        1
    } else if d > 16_384 {
        16_384
    } else {
        d as i32
    }
}

} // verus!

verus! {

/// A command-line usage error.
#[derive(Debug, Clone)]
pub struct UsageError {
    pub message: String,
}

impl UsageError {
    /// The text shown to the user.
    pub fn message(&self) -> (m: String)
        ensures
            m@ == self.message@,
    {
        self.message.clone()
    }
}

/// The error of an argument that is missing or malformed.
pub fn invalid_input(message: &str) -> (e: UsageError)
    ensures
        e.message@ == message@,
{
    UsageError { message: owned(message) }
}

} // verus!
