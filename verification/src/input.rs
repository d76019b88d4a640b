//! Mouse telemetry: message classification, Recordly cursor vocabulary and the
//! session rules of the cursor/click recorder.
use vstd::prelude::*;
use crate::capture::RectI32;
use crate::json::{field, find_member, JsonNumber, JsonValue};
use crate::text::{owned, same_text};

verus! {

pub const TELEMETRY_SCHEMA_VERSION: u32 = 1;

#[derive(Clone, Copy, Debug, PartialEq, Eq, Structural)]
pub enum MouseButton {
    Left,
    Right,
    Middle,
    X1,
    X2,
}

#[derive(Clone, Copy, Debug, PartialEq, Eq, Structural)]
pub enum ButtonPhase {
    Press,
    Release,
}

/// Cursor shape at sample time, in Recordly's `cursorType` vocabulary.
#[derive(Clone, Copy, Debug, PartialEq, Eq, Structural)]
pub enum CursorType {
    Arrow,
    Text,
    Pointer,
    Crosshair,
    OpenHand,
    ClosedHand,
    ResizeEw,
    ResizeNs,
    NotAllowed,
}

impl Default for CursorType {
    fn default() -> (c: Self)
        ensures
            c == CursorType::Arrow,
    {
        CursorType::Arrow
    }
}

/// Recordly's name for each cursor shape.
pub open spec fn recordly_name(c: CursorType) -> Seq<char> {
    match c {
        CursorType::Arrow => "arrow"@,
        CursorType::Text => "text"@,
        CursorType::Pointer => "pointer"@,
        CursorType::Crosshair => "crosshair"@,
        CursorType::OpenHand => "open-hand"@,
        CursorType::ClosedHand => "closed-hand"@,
        CursorType::ResizeEw => "resize-ew"@,
        CursorType::ResizeNs => "resize-ns"@,
        CursorType::NotAllowed => "not-allowed"@,
    }
}

/// The cursor shape a Recordly name (or a Windows cursor alias) denotes.
pub open spec fn parse_recordly_name(s: Seq<char>) -> Option<CursorType> {
    if s == "arrow"@ {
        Some(CursorType::Arrow)
    } else if s == "text"@ || s == "ibeam"@ {
        Some(CursorType::Text)
    } else if s == "pointer"@ || s == "hand"@ {
        Some(CursorType::Pointer)
    } else if s == "crosshair"@ {
        Some(CursorType::Crosshair)
    } else if s == "open-hand"@ || s == "sizeall"@ {
        Some(CursorType::OpenHand)
    } else if s == "closed-hand"@ {
        Some(CursorType::ClosedHand)
    } else if s == "resize-ew"@ || s == "sizewe"@ {
        Some(CursorType::ResizeEw)
    } else if s == "resize-ns"@ || s == "sizens"@ {
        Some(CursorType::ResizeNs)
    } else if s == "not-allowed"@ || s == "no"@ {
        Some(CursorType::NotAllowed)
    } else {
        None
    }
}

impl CursorType {
    pub fn as_recordly_str(self) -> (s: &'static str)
        ensures
            s@ == recordly_name(self),
    {
        match self {
            CursorType::Arrow => "arrow",
            CursorType::Text => "text",
            CursorType::Pointer => "pointer",
            CursorType::Crosshair => "crosshair",
            CursorType::OpenHand => "open-hand",
            CursorType::ClosedHand => "closed-hand",
            CursorType::ResizeEw => "resize-ew",
            CursorType::ResizeNs => "resize-ns",
            CursorType::NotAllowed => "not-allowed",
        }
    }

    pub fn from_recordly_str(value: &str) -> (c: Option<Self>)
        ensures
            c == parse_recordly_name(value@),
    {
        if same_text(value, "arrow") {
            Some(CursorType::Arrow)
        } else if same_text(value, "text") || same_text(value, "ibeam") {
            Some(CursorType::Text)
        } else if same_text(value, "pointer") || same_text(value, "hand") {
            Some(CursorType::Pointer)
        } else if same_text(value, "crosshair") {
            Some(CursorType::Crosshair)
        } else if same_text(value, "open-hand") || same_text(value, "sizeall") {
            Some(CursorType::OpenHand)
        } else if same_text(value, "closed-hand") {
            Some(CursorType::ClosedHand)
        } else if same_text(value, "resize-ew") || same_text(value, "sizewe") {
            Some(CursorType::ResizeEw)
        } else if same_text(value, "resize-ns") || same_text(value, "sizens") {
            Some(CursorType::ResizeNs)
        } else if same_text(value, "not-allowed") || same_text(value, "no") {
            Some(CursorType::NotAllowed)
        } else {
            None
        }
    }
}

/// Each name of the table has its own length, or differs from the others
/// of that length in a letter: enough to tell any two of them apart.
proof fn lemma_recordly_names_differ()
    ensures
        "arrow"@.len() == 5 && "arrow"@[0] == 'a',
        "text"@.len() == 4 && "text"@[0] == 't',
        "ibeam"@.len() == 5 && "ibeam"@[0] == 'i',
        "pointer"@.len() == 7 && "pointer"@[0] == 'p',
        "hand"@.len() == 4 && "hand"@[0] == 'h',
        "crosshair"@.len() == 9 && "crosshair"@[0] == 'c',
        "open-hand"@.len() == 9 && "open-hand"@[0] == 'o',
        "sizeall"@.len() == 7 && "sizeall"@[0] == 's',
        "closed-hand"@.len() == 11 && "closed-hand"@[0] == 'c',
        "resize-ew"@.len() == 9 && "resize-ew"@[0] == 'r' && "resize-ew"@[7] == 'e',
        "sizewe"@.len() == 6 && "sizewe"@[0] == 's' && "sizewe"@[4] == 'w',
        "resize-ns"@.len() == 9 && "resize-ns"@[0] == 'r' && "resize-ns"@[7] == 'n',
        "sizens"@.len() == 6 && "sizens"@[0] == 's' && "sizens"@[4] == 'n',
        "not-allowed"@.len() == 11 && "not-allowed"@[0] == 'n',
        "no"@.len() == 2 && "no"@[0] == 'n',
{
    reveal_strlit("arrow");
    reveal_strlit("text");
    reveal_strlit("ibeam");
    reveal_strlit("pointer");
    reveal_strlit("hand");
    reveal_strlit("crosshair");
    reveal_strlit("open-hand");
    reveal_strlit("sizeall");
    reveal_strlit("closed-hand");
    reveal_strlit("resize-ew");
    reveal_strlit("sizewe");
    reveal_strlit("resize-ns");
    reveal_strlit("sizens");
    reveal_strlit("not-allowed");
    reveal_strlit("no");
}

/// Reading back the name of any cursor shape gives that shape.
pub proof fn lemma_recordly_name_round_trip(c: CursorType)
    ensures
        parse_recordly_name(recordly_name(c)) == Some(c),
{
    lemma_recordly_names_differ();
}

/// `t` microseconds as whole milliseconds, rounded toward negative infinity.
pub open spec fn floor_millis(t: i64) -> int {
    if t >= 0 {
        t as int / 1000
    } else {
        -(((-(t as int)) + 999) / 1000)
    }
}

fn floor_millis_exec(t: i64) -> (m: i64)
    ensures
        m == floor_millis(t),
        m * 1000 <= t < m * 1000 + 1000,
{
    if t >= 0 {
        t / 1000
    } else {
        let u: i64 = -(t + 1);
        -(u / 1000) - 1
    }
}

/// One mouse button or wheel event.
#[derive(Clone, Copy, Debug, PartialEq, Eq, Structural)]
pub struct MouseEvent {
    pub timestamp_micros: i64,
    pub screen_x: i32,
    pub screen_y: i32,
    pub button: Option<MouseButton>,
    pub phase: Option<ButtonPhase>,
    pub wheel_delta: i16,
    pub click_count: u8,
    pub cursor_type: Option<CursorType>,
}

impl MouseEvent {
    /// Recordly's `timeMs` view of the timestamp.
    pub fn time_ms(&self) -> (m: i64)
        ensures
            m == floor_millis(self.timestamp_micros),
    {
        floor_millis_exec(self.timestamp_micros)
    }

    /// A wheel event has a delta and no button.
    pub fn is_wheel(&self) -> (b: bool)
        ensures
            b == (self.wheel_delta != 0 && self.button is None),
    {
        self.wheel_delta != 0 && self.button.is_none()
    }
}

#[derive(Debug, Clone)]
pub enum InputError {
    Unsupported,
    Native(String),
}

pub const WM_MOUSEMOVE: u32 = 0x0200;
pub const WM_LBUTTONDOWN: u32 = 0x0201;
pub const WM_LBUTTONUP: u32 = 0x0202;
pub const WM_LBUTTONDBLCLK: u32 = 0x0203;
pub const WM_RBUTTONDOWN: u32 = 0x0204;
pub const WM_RBUTTONUP: u32 = 0x0205;
pub const WM_RBUTTONDBLCLK: u32 = 0x0206;
pub const WM_MBUTTONDOWN: u32 = 0x0207;
pub const WM_MBUTTONUP: u32 = 0x0208;
pub const WM_MBUTTONDBLCLK: u32 = 0x0209;
pub const WM_MOUSEWHEEL: u32 = 0x020A;
pub const WM_XBUTTONDOWN: u32 = 0x020B;
pub const WM_XBUTTONUP: u32 = 0x020C;
pub const WM_XBUTTONDBLCLK: u32 = 0x020D;
pub const WM_MOUSEHWHEEL: u32 = 0x020E;

/// Vertical and horizontal wheel messages.
pub fn is_wheel_message(message: u32) -> (b: bool)
    ensures
        b == (message == WM_MOUSEWHEEL || message == WM_MOUSEHWHEEL),
{
    message == WM_MOUSEWHEEL || message == WM_MOUSEHWHEEL
}

/// The extra button an `XBUTTON` message names: `2` is X2, anything else X1.
pub open spec fn x_button(hi: u16) -> MouseButton {
    if hi == 2 {
        MouseButton::X2
    } else {
        MouseButton::X1
    }
}

/// The button, phase and click count a button message reports; moves, wheel
/// and unknown messages report none.
pub open spec fn button_of(message: u32, hi: u16) -> Option<(MouseButton, ButtonPhase, u8)> {
    if message == WM_LBUTTONDOWN {
        Some((MouseButton::Left, ButtonPhase::Press, 1u8))
    } else if message == WM_LBUTTONUP {
        Some((MouseButton::Left, ButtonPhase::Release, 1u8))
    } else if message == WM_LBUTTONDBLCLK {
        Some((MouseButton::Left, ButtonPhase::Press, 2u8))
    } else if message == WM_RBUTTONDOWN {
        Some((MouseButton::Right, ButtonPhase::Press, 1u8))
    } else if message == WM_RBUTTONUP {
        Some((MouseButton::Right, ButtonPhase::Release, 1u8))
    } else if message == WM_RBUTTONDBLCLK {
        Some((MouseButton::Right, ButtonPhase::Press, 2u8))
    } else if message == WM_MBUTTONDOWN {
        Some((MouseButton::Middle, ButtonPhase::Press, 1u8))
    } else if message == WM_MBUTTONUP {
        Some((MouseButton::Middle, ButtonPhase::Release, 1u8))
    } else if message == WM_MBUTTONDBLCLK {
        Some((MouseButton::Middle, ButtonPhase::Press, 2u8))
    } else if message == WM_XBUTTONDOWN {
        Some((x_button(hi), ButtonPhase::Press, 1u8))
    } else if message == WM_XBUTTONUP {
        Some((x_button(hi), ButtonPhase::Release, 1u8))
    } else if message == WM_XBUTTONDBLCLK {
        Some((x_button(hi), ButtonPhase::Press, 2u8))
    } else {
        None
    }
}

/// Classifies a low-level mouse message; `hi_word` is `HIWORD(mouseData)`.
pub fn classify_button(message: u32, hi_word: u16) -> (r: Option<(MouseButton, ButtonPhase, u8)>)
    ensures
        r == button_of(message, hi_word),
{
    let x = if hi_word == 2 {
        MouseButton::X2
    } else {
        MouseButton::X1
    };
    if message == WM_LBUTTONDOWN {
        Some((MouseButton::Left, ButtonPhase::Press, 1))
    } else if message == WM_LBUTTONUP {
        Some((MouseButton::Left, ButtonPhase::Release, 1))
    } else if message == WM_LBUTTONDBLCLK {
        Some((MouseButton::Left, ButtonPhase::Press, 2))
    } else if message == WM_RBUTTONDOWN {
        Some((MouseButton::Right, ButtonPhase::Press, 1))
    } else if message == WM_RBUTTONUP {
        Some((MouseButton::Right, ButtonPhase::Release, 1))
    } else if message == WM_RBUTTONDBLCLK {
        Some((MouseButton::Right, ButtonPhase::Press, 2))
    } else if message == WM_MBUTTONDOWN {
        Some((MouseButton::Middle, ButtonPhase::Press, 1))
    } else if message == WM_MBUTTONUP {
        Some((MouseButton::Middle, ButtonPhase::Release, 1))
    } else if message == WM_MBUTTONDBLCLK {
        Some((MouseButton::Middle, ButtonPhase::Press, 2))
    } else if message == WM_XBUTTONDOWN {
        Some((x, ButtonPhase::Press, 1))
    } else if message == WM_XBUTTONUP {
        Some((x, ButtonPhase::Release, 1))
    } else if message == WM_XBUTTONDBLCLK {
        Some((x, ButtonPhase::Press, 2))
    } else {
        None
    }
}

/// Wheel messages are never reported as button presses.
pub proof fn lemma_wheel_is_not_a_click(message: u32, hi: u16)
    requires
        message == WM_MOUSEWHEEL || message == WM_MOUSEHWHEEL || message == WM_MOUSEMOVE,
    ensures
        button_of(message, hi) is None,
{
}

/// Every button message reports the button it names. The messages come in
/// runs of three (down, up, double click): `0x0201..=0x0203` report Left,
/// `0x0204..=0x0206` Right, `0x0207..=0x0209` Middle and `0x020B..=0x020D` an
/// extra button (X2 when the high word is 2, else X1); no other message
/// reports a button. The up messages report a release, every other a press;
/// the double clicks count 2 clicks, every other 1.
pub proof fn lemma_button_messages_name_their_button(message: u32, hi: u16)
    ensures
        (button_of(message, hi) is Some) <==> (0x0201 <= message <= 0x0209 || 0x020B <= message
            <= 0x020D),
        (button_of(message, hi) matches Some((b, _, _)) && b == MouseButton::Left) <==> (0x0201
            <= message <= 0x0203),
        (button_of(message, hi) matches Some((b, _, _)) && b == MouseButton::Right) <==> (0x0204
            <= message <= 0x0206),
        (button_of(message, hi) matches Some((b, _, _)) && b == MouseButton::Middle) <==> (0x0207
            <= message <= 0x0209),
        (button_of(message, hi) matches Some((b, _, _)) && (b == MouseButton::X1 || b
            == MouseButton::X2)) <==> (0x020B <= message <= 0x020D),
        (button_of(message, hi) matches Some((b, _, _)) && b == MouseButton::X2) <==> (0x020B
            <= message <= 0x020D && hi == 2),
        (button_of(message, hi) matches Some((_, p, _)) && p == ButtonPhase::Release) <==> (
        message == 0x0202 || message == 0x0205 || message == 0x0208 || message == 0x020C),
        (button_of(message, hi) matches Some((_, _, c)) && c == 2) <==> (message == 0x0203
            || message == 0x0206 || message == 0x0209 || message == 0x020D),
        button_of(message, hi) matches Some((_, _, c)) ==> c == 1 || c == 2,
{
}

/// The mouse hook records a button message as a click event of the button
/// the message names (Left for `0x0201..=0x0203`, Right for `0x0204..=0x0206`,
/// Middle for `0x0207..=0x0209`, X1 or X2 for `0x020B..=0x020D`), with no
/// wheel delta, a release exactly for the up messages and 2 clicks exactly
/// for the double clicks.
pub proof fn lemma_hook_reports_the_named_button(
    message: u32,
    mouse_data: u32,
    timestamp_micros: i64,
    screen_x: i32,
    screen_y: i32,
    cursor_type: Option<CursorType>,
)
    requires
        0x0201 <= message <= 0x0209 || 0x020B <= message <= 0x020D,
    ensures
        hook_event(message, mouse_data, timestamp_micros, screen_x, screen_y, cursor_type) matches Some(e)
            && e.wheel_delta == 0 && e.timestamp_micros == timestamp_micros && e.screen_x == screen_x
            && e.screen_y == screen_y && e.cursor_type == cursor_type && e.button is Some
            && e.phase is Some
            && (e.button == Some(MouseButton::Left) <==> message <= 0x0203)
            && (e.button == Some(MouseButton::Right) <==> 0x0204 <= message <= 0x0206)
            && (e.button == Some(MouseButton::Middle) <==> 0x0207 <= message <= 0x0209)
            && (e.button == Some(MouseButton::X2) <==> 0x020B <= message && mouse_data / 65536 == 2)
            && (e.phase == Some(ButtonPhase::Release) <==> (message == 0x0202 || message == 0x0205
            || message == 0x0208 || message == 0x020C))
            && (e.click_count == 2 <==> (message == 0x0203 || message == 0x0206 || message == 0x0209
            || message == 0x020D)),
{
    let hi = (mouse_data / 65536) as u16;
    lemma_button_messages_name_their_button(message, hi);
    assert(mouse_data / 65536 <= 0xFFFF) by (nonlinear_arith);
}

/// `HIWORD(mouse_data)`.
pub fn hi_word(mouse_data: u32) -> (h: u16)
    ensures
        h == mouse_data / 65536,
{
    let h = (mouse_data >> 16) as u16;
    assert(((mouse_data >> 16u32) as u16) as u32 == mouse_data / 65536) by (bit_vector);
    h
}

/// The signed wheel delta carried in the high word of `mouse_data`.
pub open spec fn wheel_delta_of(mouse_data: u32) -> int {
    if mouse_data / 65536 < 32768 {
        (mouse_data / 65536) as int
    } else {
        (mouse_data / 65536) as int - 65536
    }
}

/// The signed wheel delta (`GET_WHEEL_DELTA_WPARAM`): the high word read as a
/// two's-complement 16-bit value.
pub fn wheel_delta_from_mouse_data(mouse_data: u32) -> (d: i16)
    ensures
        d == wheel_delta_of(mouse_data),
{
    let h = hi_word(mouse_data);
    let d = h as i16;
    assert(h < 32768 ==> (h as i16) as int == h as int) by (bit_vector);
    assert(h >= 32768 ==> (h as i16) as int == h as int - 65536) by (bit_vector);
    d
}

/// The wheel delta reads back the signed 16-bit value packed into the high
/// word, whatever the low word holds: a notch away from the user (`120`)
/// is `+120`, a notch toward the user (high word `0xFF88`) is `-120`.
pub proof fn lemma_wheel_delta_round_trip(delta: i16, low: u16)
    ensures
        ({
            let hi: int = if delta >= 0 {
                delta as int
            } else {
                delta as int + 65536
            };
            wheel_delta_of((hi * 65536 + low) as u32) == delta
        }),
{
    let hi: int = if delta >= 0 {
        delta as int
    } else {
        delta as int + 65536
    };
    let md: int = hi * 65536 + low;
    assert(0 <= md < 0x1_0000_0000 && md / 65536 == hi) by (nonlinear_arith)
        requires
            0 <= hi < 65536,
            0 <= low < 65536,
            md == hi * 65536 + low,
    ;
}

/// Whether starting a telemetry segment at `offset_micros` must truncate the
/// cursor and click files instead of appending to them. The first segment
/// (`offset_micros <= 0`) always starts fresh; a later one starts fresh only
/// when a file already holds a timestamp past `offset_micros`, i.e. it belongs
/// to an earlier session. `cursor_last` and `clicks_last` are the last
/// timestamps found in the two files (`None` when a file is missing, empty or
/// unreadable).
pub fn should_truncate_telemetry(
    offset_micros: i64,
    cursor_last: Option<i64>,
    clicks_last: Option<i64>,
) -> (fresh: bool)
    ensures
        fresh == (offset_micros <= 0 || (cursor_last matches Some(t) && t > offset_micros) || (
        clicks_last matches Some(t) && t > offset_micros)),
{
    if offset_micros <= 0 {
        return true;
    }
    if let Some(last) = cursor_last {
        if last > offset_micros {
            return true;
        }
    }
    if let Some(last) = clicks_last {
        if last > offset_micros {
            return true;
        }
    }
    false
}

/// A capture source with no visible area cannot be recorded.
pub fn require_visible_area(source: RectI32) -> (r: Result<(), InputError>)
    ensures
        r is Ok <==> source.width > 0 && source.height > 0,
        r matches Err(e) ==> (e matches InputError::Native(m) && m@
            == "capture source has no visible area; restore the window before recording"@),
{
    if source.width <= 0 || source.height <= 0 {
        return Err(
            InputError::Native(
                owned("capture source has no visible area; restore the window before recording"),
            ),
        );
    }
    Ok(())
}

/// Points the running input session at a new source rectangle (window moved
/// or DPI changed). `active` is the rectangle of the running session, `None`
/// when no session runs; it changes only when the call succeeds.
pub fn update_source(active: &mut Option<RectI32>, source: RectI32) -> (r: Result<(), InputError>)
    ensures
        r is Ok <==> (source.width > 0 && source.height > 0 && (*old(active)) is Some),
        r is Ok ==> *final(active) == Some(source),
        r is Err ==> *final(active) == *old(active),
        r matches Err(e) ==> (e matches InputError::Native(m) && (if source.width > 0
            && source.height > 0 {
            m@ == "no input recording is active"@
        } else {
            m@ == "capture source has no visible area; restore the window before recording"@
        })),
{
    let checked = require_visible_area(source);
    if let Err(e) = checked {
        return Err(e);
    }
    if active.is_none() {
        return Err(InputError::Native(owned("no input recording is active")));
    }
    *active = Some(source);
    Ok(())
}

/// The hook's timestamp for an event `elapsed_micros` after the segment
/// started: the segment offset plus the elapsed time (itself capped at
/// `i64::MAX`), saturating at `i64::MAX`.
pub open spec fn hook_time(offset_micros: i64, elapsed_micros: u128) -> int {
    let e: int = if elapsed_micros > i64::MAX { i64::MAX as int } else { elapsed_micros as int };
    if offset_micros + e > i64::MAX {
        i64::MAX as int
    } else {
        offset_micros + e
    }
}

pub fn hook_timestamp(offset_micros: i64, elapsed_micros: u128) -> (t: i64)
    ensures
        t == hook_time(offset_micros, elapsed_micros),
{
    let e: i64 = if elapsed_micros > 9_223_372_036_854_775_807u128 {
        i64::MAX
    } else {
        elapsed_micros as i64
    };
    if offset_micros > 0 && e > i64::MAX - offset_micros {
        i64::MAX
    } else {
        offset_micros + e
    }
}

/// The click-stream event the mouse hook records for `message`: a wheel
/// event carrying the signed delta, a button event as `button_of` classifies
/// it, or nothing (cursor moves go to the cursor stream, unknown messages are
/// dropped).
pub open spec fn hook_event(
    message: u32,
    mouse_data: u32,
    timestamp_micros: i64,
    screen_x: i32,
    screen_y: i32,
    cursor_type: Option<CursorType>,
) -> Option<MouseEvent> {
    if message == WM_MOUSEMOVE {
        None
    } else if message == WM_MOUSEWHEEL || message == WM_MOUSEHWHEEL {
        Some(
            MouseEvent {
                timestamp_micros,
                screen_x,
                screen_y,
                button: None,
                phase: None,
                wheel_delta: wheel_delta_of(mouse_data) as i16,
                click_count: 0,
                cursor_type,
            },
        )
    } else {
        match button_of(message, (mouse_data / 65536) as u16) {
            Some((button, phase, click_count)) => Some(
                MouseEvent {
                    timestamp_micros,
                    screen_x,
                    screen_y,
                    button: Some(button),
                    phase: Some(phase),
                    wheel_delta: 0,
                    click_count,
                    cursor_type,
                },
            ),
            None => None,
        }
    }
}

/// A wheel message becomes a wheel event carrying its delta, never a click:
/// no button, no phase, no click count.
pub proof fn lemma_hook_wheel_is_never_a_click(
    message: u32,
    mouse_data: u32,
    timestamp_micros: i64,
    screen_x: i32,
    screen_y: i32,
    cursor_type: Option<CursorType>,
)
    requires
        message == WM_MOUSEWHEEL || message == WM_MOUSEHWHEEL,
    ensures
        hook_event(message, mouse_data, timestamp_micros, screen_x, screen_y, cursor_type) matches Some(e)
            && e.button is None && e.phase is None && e.click_count == 0 && e.wheel_delta
            == wheel_delta_of(mouse_data),
{
}

pub fn mouse_event_for(
    message: u32,
    mouse_data: u32,
    timestamp_micros: i64,
    screen_x: i32,
    screen_y: i32,
    cursor_type: Option<CursorType>,
) -> (r: Option<MouseEvent>)
    ensures
        r == hook_event(message, mouse_data, timestamp_micros, screen_x, screen_y, cursor_type),
{
    if message == WM_MOUSEMOVE {
        None
    } else if is_wheel_message(message) {
        let wheel_delta = wheel_delta_from_mouse_data(mouse_data);
        Some(
            MouseEvent {
                timestamp_micros,
                screen_x,
                screen_y,
                button: None,
                phase: None,
                wheel_delta,
                click_count: 0,
                cursor_type,
            },
        )
    } else {
        match classify_button(message, hi_word(mouse_data)) {
            Some((button, phase, click_count)) => Some(
                MouseEvent {
                    timestamp_micros,
                    screen_x,
                    screen_y,
                    button: Some(button),
                    phase: Some(phase),
                    wheel_delta: 0,
                    click_count,
                    cursor_type,
                },
            ),
            None => None,
        }
    }
}

/// The shape of the first known cursor handle equal to `current`, or the
/// arrow when none is.
pub open spec fn shape_of_handle(known: Seq<(usize, CursorType)>, current: usize) -> CursorType
    decreases known.len(),
{
    if known.len() == 0 {
        CursorType::Arrow
    } else if known[0].0 == current {
        known[0].1
    } else {
        shape_of_handle(known.subrange(1, known.len() as int), current)
    }
}

/// The cursor shape reported with a hook event: none while the cursor is
/// hidden or cannot be read (`showing` false), otherwise the shape of the
/// current cursor handle among the `known` system cursors.
pub fn cursor_type_for_handle(known: &Vec<(usize, CursorType)>, showing: bool, current: usize) -> (r:
    Option<CursorType>)
    ensures
        r == (if showing {
            Some(shape_of_handle(known@, current))
        } else {
            None
        }),
{
    if !showing {
        return None;
    }
    let mut i: usize = 0;
    assert(known@.subrange(0, known@.len() as int) =~= known@);
    while i < known.len()
        invariant
            showing,
            i <= known.len(),
            shape_of_handle(known@, current) == shape_of_handle(
                known@.subrange(i as int, known@.len() as int),
                current,
            ),
        decreases known.len() - i,
    {
        let ghost rest = known@.subrange(i as int, known@.len() as int);
        assert(rest[0] == known@[i as int]);
        if known[i].0 == current {
            assert(rest.len() > 0 && rest[0].0 == current);
            return Some(known[i].1);
        }
        assert(rest.subrange(1, rest.len() as int) =~= known@.subrange(
            i + 1,
            known@.len() as int,
        ));
        i = i + 1;
    }
    Some(CursorType::Arrow)
}

/// The member `key` of a JSON object (the last one with that name); nothing
/// for other values.
pub open spec fn member(value: JsonValue, key: Seq<char>) -> Option<JsonValue> {
    match value {
        JsonValue::Object(members) => field(members@, key),
        _ => None,
    }
}

fn member_of<'a>(value: &'a JsonValue, key: &str) -> (r: Option<&'a JsonValue>)
    ensures
        r is None <==> member(*value, key@) is None,
        r matches Some(v) ==> member(*value, key@) == Some(*v),
{
    match value {
        JsonValue::Object(members) => {
            proof {
                crate::json::lemma_last_position(members@, key@);
            }
            match find_member(members, key) {
                Some(i) => Some(&members[i].1),
                None => None,
            }
        },
        _ => None,
    }
}

/// A JSON value read as a signed 64-bit integer, when it is one.
pub open spec fn integer_of(value: JsonValue) -> Option<i64> {
    match value {
        JsonValue::Number(JsonNumber::Int(i)) => Some(i),
        JsonValue::Number(JsonNumber::UInt(n)) => if n <= i64::MAX {
            Some(n as i64)
        } else {
            None
        },
        _ => None,
    }
}

/// The timestamp a telemetry line carries: microseconds from
/// `timestampMicros` (or its snake-case alias, consulted only when the first
/// is absent), else Recordly's `timeMs` number, which the reader turns into
/// microseconds.
#[derive(Debug, Clone, Copy, PartialEq, Eq, Structural)]
pub enum RowTime {
    Micros(i64),
    Millis(JsonNumber),
    Missing,
}

pub open spec fn row_time_of(value: JsonValue) -> RowTime {
    let stamp = if member(value, "timestampMicros"@) is Some {
        member(value, "timestampMicros"@)
    } else {
        member(value, "timestamp_micros"@)
    };
    let micros = match stamp {
        Some(v) => integer_of(v),
        None => None,
    };
    match micros {
        Some(t) => RowTime::Micros(t),
        None => match member(value, "timeMs"@) {
            Some(JsonValue::Number(n)) => RowTime::Millis(n),
            _ => RowTime::Missing,
        },
    }
}

pub fn row_time(value: &JsonValue) -> (r: RowTime)
    ensures
        r == row_time_of(*value),
{
    let primary = member_of(value, "timestampMicros");
    let stamp = match primary {
        Some(v) => Some(v),
        None => member_of(value, "timestamp_micros"),
    };
    let micros: Option<i64> = match stamp {
        Some(JsonValue::Number(JsonNumber::Int(i))) => Some(*i),
        Some(JsonValue::Number(JsonNumber::UInt(n))) => if *n <= 9_223_372_036_854_775_807u64 {
            Some(*n as i64)
        } else {
            None
        },
        _ => None,
    };
    match micros {
        Some(t) => RowTime::Micros(t),
        None => match member_of(value, "timeMs") {
            Some(JsonValue::Number(n)) => RowTime::Millis(*n),
            _ => RowTime::Missing,
        },
    }
}

/// How the lenient cursor reader takes a line: as a Kiri sample (it has
/// `timestampMicros` or `timestamp_micros`), as a Recordly point (it has
/// `timeMs` only), or not at all.
#[derive(Debug, Clone, Copy, PartialEq, Eq, Structural)]
pub enum CursorRow {
    Kiri,
    Recordly,
    Skip,
}

pub open spec fn cursor_row_of(value: JsonValue) -> CursorRow {
    if member(value, "timestampMicros"@) is Some || member(value, "timestamp_micros"@) is Some {
        CursorRow::Kiri
    } else if member(value, "timeMs"@) is Some {
        CursorRow::Recordly
    } else {
        CursorRow::Skip
    }
}

pub fn cursor_row(value: &JsonValue) -> (r: CursorRow)
    ensures
        r == cursor_row_of(*value),
{
    if member_of(value, "timestampMicros").is_some() || member_of(value, "timestamp_micros").is_some() {
        CursorRow::Kiri
    } else if member_of(value, "timeMs").is_some() {
        CursorRow::Recordly
    } else {
        CursorRow::Skip
    }
}

/// The lenient click reader takes a line that names a time in any of the
/// three spellings; lines without one are skipped.
pub fn is_click_row(value: &JsonValue) -> (b: bool)
    ensures
        b == (member(*value, "timestampMicros"@) is Some || member(*value, "timestamp_micros"@) is Some
            || member(*value, "timeMs"@) is Some),
{
    member_of(value, "timestampMicros").is_some() || member_of(value, "timestamp_micros").is_some()
        || member_of(value, "timeMs").is_some()
}

/// `a` comes before `b` when ordering rows by time: an earlier timestamp, or
/// the same timestamp and an earlier row.
pub open spec fn time_before(stamps: Seq<i64>, a: int, b: int) -> bool {
    stamps[a] < stamps[b] || (stamps[a] == stamps[b] && a < b)
}

/// Row `k` occurs in `order`.
pub open spec fn listed(order: Seq<usize>, k: int) -> bool {
    exists|i: int| 0 <= i < order.len() && order[i] == k
}

/// `order` lists every row of `stamps` once, earliest timestamp first, rows
/// with equal timestamps in the order they were read.
pub open spec fn orders_by_time(stamps: Seq<i64>, order: Seq<usize>) -> bool {
    &&& order.len() == stamps.len()
    &&& forall|i: int| 0 <= i < order.len() ==> #[trigger] order[i] < stamps.len()
    &&& forall|k: int| 0 <= k < stamps.len() ==> #[trigger] listed(order, k)
    &&& forall|i: int, j: int|
        0 <= i < j < order.len() ==> time_before(stamps, #[trigger] order[i] as int, #[trigger] order[j] as int)
}

/// The order in which telemetry rows are handed out: a stable sort of the
/// row indices by timestamp.
pub fn timestamp_order(stamps: &Vec<i64>) -> (order: Vec<usize>)
    ensures
        orders_by_time(stamps@, order@),
{
    let n = stamps.len();
    let mut order: Vec<usize> = Vec::new();
    let mut k: usize = 0;
    while k < n
        invariant
            n == stamps.len(),
            k <= n,
            order.len() == k,
            forall|i: int| 0 <= i < order.len() ==> #[trigger] order@[i] < k,
            forall|m: int| 0 <= m < k ==> #[trigger] listed(order@, m),
            forall|i: int, j: int|
                0 <= i < j < order.len() ==> time_before(
                    stamps@,
                    #[trigger] order@[i] as int,
                    #[trigger] order@[j] as int,
                ),
        decreases n - k,
    {
        let t = stamps[k];
        let mut p: usize = 0;
        while p < order.len() && stamps[order[p]] <= t
            invariant
                n == stamps.len(),
                k < n,
                p <= order.len(),
                forall|i: int| 0 <= i < order.len() ==> #[trigger] order@[i] < k,
                forall|q: int| 0 <= q < p ==> stamps@[#[trigger] order@[q] as int] <= t,
                t == stamps@[k as int],
            decreases order.len() - p,
        {
            p = p + 1;
        }
        let ghost old_order = order@;
        proof {
            assert forall|q: int| p <= q < old_order.len() implies t < stamps@[#[trigger] old_order[q] as int] by {
                if p < q {
                    assert(time_before(stamps@, old_order[p as int] as int, old_order[q] as int));
                }
            }
        }
        order.insert(p, k);
        proof {
            let new_order = order@;
            assert(new_order == old_order.insert(p as int, k));
            assert forall|i: int| 0 <= i < new_order.len() implies #[trigger] new_order[i] < k + 1 by {
                if i < p {
                    assert(new_order[i] == old_order[i]);
                } else if i > p {
                    assert(new_order[i] == old_order[i - 1]);
                }
            }
            assert forall|m: int| 0 <= m < k + 1 implies #[trigger] listed(new_order, m) by {
                if m == k {
                    assert(new_order[p as int] == k);
                } else {
                    assert(listed(old_order, m));
                    let i0 = choose|i: int| 0 <= i < old_order.len() && old_order[i] == m;
                    if i0 < p {
                        assert(new_order[i0] == m);
                    } else {
                        assert(new_order[i0 + 1] == m);
                    }
                }
            }
            assert forall|i: int, j: int| 0 <= i < j < new_order.len() implies time_before(
                stamps@,
                #[trigger] new_order[i] as int,
                #[trigger] new_order[j] as int,
            ) by {
                if j < p {
                    assert(new_order[i] == old_order[i] && new_order[j] == old_order[j]);
                    assert(time_before(stamps@, old_order[i] as int, old_order[j] as int));
                } else if j == p {
                    assert(new_order[i] == old_order[i]);
                    assert(stamps@[old_order[i] as int] <= t);
                } else if i < p {
                    assert(new_order[i] == old_order[i] && new_order[j] == old_order[j - 1]);
                    assert(time_before(stamps@, old_order[i] as int, old_order[j - 1] as int));
                } else if i == p {
                    assert(new_order[j] == old_order[j - 1]);
                    assert(t < stamps@[old_order[j - 1] as int]);
                } else {
                    assert(new_order[i] == old_order[i - 1] && new_order[j] == old_order[j - 1]);
                    assert(time_before(stamps@, old_order[i - 1] as int, old_order[j - 1] as int));
                }
            }
        }
        k = k + 1;
    }
    order
}

} // verus!

verus! {

impl InputError {
    /// The message shown to the user.
    pub fn message(&self) -> (m: String)
        ensures
            m@ == (match *self {
                InputError::Unsupported => "input telemetry is only available on Windows"@,
                InputError::Native(d) => "input telemetry failed: "@ + d@,
            }),
    {
        match self {
            InputError::Unsupported => owned("input telemetry is only available on Windows"),
            InputError::Native(d) => crate::text::concat("input telemetry failed: ", d.as_str()),
        }
    }
}

} // verus!
