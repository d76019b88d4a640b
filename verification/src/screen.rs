//! The decisions of a screen or window capture segment: which target a source
//! id names, the size and bitrate it is encoded at, frame pacing, and the
//! thumbnail data URL. Driving the capture API is left to the host.
use vstd::prelude::*;
use base64::Engine;
use crate::capture::{default_bitrate, default_video_bitrate, CaptureError};
use crate::project::{is_blank, is_blank_text};
use crate::text::{
    chars_of, concat, decimal, decimal_string, owned, parse_unsigned, parse_unsigned_spec, string_from_range, UnsignedParse,
};

verus! {

/// What a screen segment records, and how.
#[derive(Clone, Debug)]
pub struct ScreenRecordingConfig {
    pub source_id: String,
    pub output: String,
    pub fps: u32,
    pub bitrate: u32,
}

/// The capture item a source id names.
#[derive(Clone, Debug, PartialEq, Eq)]
pub enum CaptureTarget {
    /// A display, by its device name (or raw monitor handle as text).
    Display(String),
    /// A window, by its raw handle value.
    Window(usize),
}

/// A screen segment can only start at 30 or 60 fps, and with a source chosen.
pub fn check_screen_config(config: &ScreenRecordingConfig) -> (r: Result<(), CaptureError>)
    ensures
        !(config.fps == 30 || config.fps == 60) ==> (r matches Err(CaptureError::InvalidConfig(m))
            && m@ == "FPS must be 30 or 60; check recording settings"@),
        (config.fps == 30 || config.fps == 60) && is_blank(config.source_id@) ==> (r matches Err(
            CaptureError::InvalidConfig(m),
        ) && m@ == "no capture source selected; pick a display or window"@),
        (config.fps == 30 || config.fps == 60) && !is_blank(config.source_id@) ==> r is Ok,
{
    if config.fps != 30 && config.fps != 60 {
        return Err(CaptureError::InvalidConfig(owned("FPS must be 30 or 60; check recording settings")));
    }
    if is_blank_text(config.source_id.as_str()) {
        return Err(
            CaptureError::InvalidConfig(owned("no capture source selected; pick a display or window")),
        );
    }
    Ok(())
}

/// `s` begins with `p`.
pub open spec fn has_prefix(s: Seq<char>, p: Seq<char>) -> bool {
    p.len() <= s.len() && s.take(p.len() as int) == p
}

fn starts_with_chars(s: &Vec<char>, p: &str) -> (b: bool)
    ensures
        b == has_prefix(s@, p@),
{
    let q = chars_of(p);
    if q.len() > s.len() {
        return false;
    }
    let mut i: usize = 0;
    while i < q.len()
        invariant
            q@ == p@,
            q.len() <= s.len(),
            0 <= i <= q.len(),
            forall|k: int| 0 <= k < i ==> s@[k] == q@[k],
        decreases q.len() - i,
    {
        if s[i] != q[i] {
            assert(s@.take(q.len() as int)[i as int] != q@[i as int]);
            return false;
        }
        i += 1;
    }
    assert(s@.take(q.len() as int) =~= q@);
    true
}

/// The capture target a source id names.
pub fn capture_target(source_id: &str) -> (r: Result<CaptureTarget, CaptureError>)
    ensures
        has_prefix(source_id@, "display:"@) ==> (r matches Ok(CaptureTarget::Display(name))
            && name@ == source_id@.skip(8)),
        !has_prefix(source_id@, "display:"@) && has_prefix(source_id@, "window:"@) ==> match parse_unsigned_spec(
            source_id@.skip(7),
            usize::MAX as nat,
        ) {
            UnsignedParse::Value(v) => r == Ok::<CaptureTarget, CaptureError>(
                CaptureTarget::Window(v as usize),
            ),
            _ => r matches Err(CaptureError::InvalidConfig(m))
                && m@ == "invalid window ID; reselect the window"@,
        },
        !has_prefix(source_id@, "display:"@) && !has_prefix(source_id@, "window:"@) ==> (r matches Err(
            CaptureError::InvalidConfig(m),
        ) && m@ == "unknown capture source ID; reselect the source"@),
{
    let s = chars_of(source_id);
    proof {
        reveal_strlit("display:");
        reveal_strlit("window:");
    }
    if starts_with_chars(&s, "display:") {
        let rest = string_from_range(&s, 8, s.len());
        assert(rest@ =~= source_id@.skip(8));
        return Ok(CaptureTarget::Display(rest));
    }
    if starts_with_chars(&s, "window:") {
        let rest = string_from_range(&s, 7, s.len());
        assert(rest@ =~= source_id@.skip(7));
        return match parse_unsigned(rest.as_str(), usize::MAX as u64) {
            UnsignedParse::Value(v) => Ok(CaptureTarget::Window(v as usize)),
            _ => Err(CaptureError::InvalidConfig(owned("invalid window ID; reselect the window"))),
        };
    }
    Err(CaptureError::InvalidConfig(owned("unknown capture source ID; reselect the source")))
}

/// The source id under which a display with device name `device_name` is
/// listed; `capture_target` reads it back as that display.
pub fn display_source_id(device_name: &str) -> (id: String)
    ensures
        id@ == "display:"@ + device_name@,
{
    concat("display:", device_name)
}

/// The source id under which the window with raw handle `handle` is listed.
pub fn window_source_id(handle: usize) -> (id: String)
    ensures
        id@ == "window:"@ + decimal(handle as nat),
{
    let digits = decimal_string(handle as u64);
    concat("window:", digits.as_str())
}

/// A listed window id names that window again: it has the `window:`
/// prefix and not the display one, and what follows reads back as the
/// handle.
pub proof fn lemma_window_id_round_trip(handle: usize)
    ensures
        ({
            let id = "window:"@ + decimal(handle as nat);
            &&& !has_prefix(id, "display:"@)
            &&& has_prefix(id, "window:"@)
            &&& parse_unsigned_spec(id.skip(7), usize::MAX as nat) == UnsignedParse::Value(
                handle as u64,
            )
        }),
{
    reveal_strlit("window:");
    reveal_strlit("display:");
    let id = "window:"@ + decimal(handle as nat);
    assert(id.take(7) =~= "window:"@);
    assert(id.skip(7) =~= decimal(handle as nat));
    assert(id[0] == 'w');
    if has_prefix(id, "display:"@) {
        assert(id.take(8)[0] == 'd');
    }
    crate::text::lemma_decimal_parses(handle as nat, usize::MAX as nat);
}

/// A listed display id names that display again: it has the `display:`
/// prefix, and what follows is the device name.
pub proof fn lemma_display_id_round_trip(device_name: Seq<char>)
    ensures
        has_prefix("display:"@ + device_name, "display:"@),
        ("display:"@ + device_name).skip(8) == device_name,
{
    reveal_strlit("display:");
    assert(("display:"@ + device_name).take(8) =~= "display:"@);
    assert(("display:"@ + device_name).skip(8) =~= device_name);
}

/// The encoded size of a window with the given edges: its width and height,
/// when both are positive and below `u32::MAX`; the full span of the `i32`
/// range (`u32::MAX`) comes only from a hostile or corrupt rectangle.
pub open spec fn window_size(left: i32, top: i32, right: i32, bottom: i32) -> Option<(u32, u32)> {
    let w = right - left;
    let h = bottom - top;
    if 1 <= w < u32::MAX && 1 <= h < u32::MAX {
        Some((w as u32, h as u32))
    } else {
        None
    }
}

/// The size a window is encoded at, or why it cannot be captured.
pub fn window_capture_size(left: i32, top: i32, right: i32, bottom: i32) -> (r: Result<
    (u32, u32),
    CaptureError,
>)
    ensures
        match window_size(left, top, right, bottom) {
            Some(size) => r == Ok::<(u32, u32), CaptureError>(size),
            None => r matches Err(CaptureError::SourceUnavailable(m))
                && m@ == "selected window has no visible area; restore it and try again"@,
        },
{
    let w: i64 = right as i64 - left as i64;
    let h: i64 = bottom as i64 - top as i64;
    if 1 <= w && w < 4_294_967_295i64 && 1 <= h && h < 4_294_967_295i64 {
        Ok((w as u32, h as u32))
    } else {
        Err(
            CaptureError::SourceUnavailable(
                owned("selected window has no visible area; restore it and try again"),
            ),
        )
    }
}

/// A display can only be captured when it has a visible area.
pub fn display_capture_size(width: u32, height: u32) -> (r: Result<(u32, u32), CaptureError>)
    ensures
        width > 0 && height > 0 ==> r == Ok::<(u32, u32), CaptureError>((width, height)),
        width == 0 || height == 0 ==> (r matches Err(CaptureError::SourceUnavailable(m))
            && m@ == "selected display has no visible area; pick another display"@),
{
    if width == 0 || height == 0 {
        return Err(
            CaptureError::SourceUnavailable(
                owned("selected display has no visible area; pick another display"),
            ),
        );
    }
    Ok((width, height))
}

/// The shortest time between two encoded frames at `fps` (at least 1 fps).
pub open spec fn frame_interval(fps: u32) -> int {
    1_000_000int / (if fps == 0 { 1int } else { fps as int })
}

pub fn min_frame_interval_micros(fps: u32) -> (m: u64)
    ensures
        m == frame_interval(fps),
{
    let f: u64 = if fps == 0 { 1 } else { fps as u64 };
    1_000_000 / f
}

/// A frame is dropped when it comes sooner than 70% of the frame interval
/// after the last encoded one.
pub open spec fn drops_frame(since_last: Option<u64>, interval: u64) -> bool {
    since_last matches Some(d) && d < interval * 7 / 10
}

pub fn should_drop_frame(since_last: Option<u64>, interval: u64) -> (b: bool)
    ensures
        b == drops_frame(since_last, interval),
{
    match since_last {
        Some(d) => (d as u128) < (interval as u128) * 7 / 10,
        None => false,
    }
}

/// The character of the standard base64 alphabet for the six-bit value `v`:
/// `A`-`Z`, `a`-`z`, `0`-`9`, `+` and `/`.
pub open spec fn base64_char(v: int) -> char {
    if v < 26 {
        (65 + v) as char
    } else if v < 52 {
        (97 + (v - 26)) as char
    } else if v < 62 {
        (48 + (v - 52)) as char
    } else if v == 62 {
        '+'
    } else {
        '/'
    }
}

/// The standard base64 text of `bytes` (RFC 4648, with `=` padding): each
/// group of three bytes becomes four characters of six bits each, and a
/// final group of one or two bytes is padded to four characters.
pub open spec fn base64_standard(bytes: Seq<u8>) -> Seq<char>
    decreases bytes.len(),
{
    if bytes.len() == 0 {
        seq![]
    } else if bytes.len() == 1 {
        let b0 = bytes[0] as int;
        seq![base64_char(b0 / 4), base64_char((b0 % 4) * 16), '=', '=']
    } else if bytes.len() == 2 {
        let b0 = bytes[0] as int;
        let b1 = bytes[1] as int;
        seq![
            base64_char(b0 / 4),
            base64_char((b0 % 4) * 16 + b1 / 16),
            base64_char((b1 % 16) * 4),
            '=',
        ]
    } else {
        let b0 = bytes[0] as int;
        let b1 = bytes[1] as int;
        let b2 = bytes[2] as int;
        seq![
            base64_char(b0 / 4),
            base64_char((b0 % 4) * 16 + b1 / 16),
            base64_char((b1 % 16) * 4 + b2 / 64),
            base64_char(b2 % 64),
        ] + base64_standard(bytes.skip(3))
    }
}

/// `base64::engine::general_purpose::STANDARD.encode`: the padded standard
/// base64 text of the bytes (see `base64_standard`).
#[verifier::external_body]
fn encode_base64(bytes: &[u8]) -> (s: String)
    ensures
        s@ == base64_standard(bytes@),
{
    base64::engine::general_purpose::STANDARD.encode(bytes)
}

/// The JPEG thumbnail bytes as a data URL; an empty image is an error.
pub fn thumbnail_data_url(jpeg: &Vec<u8>) -> (r: Result<String, CaptureError>)
    ensures
        jpeg@.len() == 0 ==> (r matches Err(CaptureError::Native(m))
            && m@ == "thumbnail capture produced an empty image"@),
        jpeg@.len() > 0 ==> (r matches Ok(url) && url@ == "data:image/jpeg;base64,"@
            + base64_standard(jpeg@)),
{
    if jpeg.len() == 0 {
        return Err(CaptureError::Native(owned("thumbnail capture produced an empty image")));
    }
    let encoded = encode_base64(jpeg.as_slice());
    Ok(concat("data:image/jpeg;base64,", encoded.as_str()))
}

} // verus!
