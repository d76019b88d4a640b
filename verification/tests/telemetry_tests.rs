use kiri::capture::{MAX_DIAGNOSTICS_EVENTS, MAX_DIAGNOSTICS_TEXT_CHARS};
use kiri::diagnostics::{diagnostics_event, record_diagnostics_snapshot, truncate_diagnostics_value};
use kiri::input::{
    cursor_row, cursor_type_for_handle, hook_timestamp, is_click_row, mouse_event_for, row_time,
    timestamp_order, ButtonPhase, CursorRow, CursorType, MouseButton, RowTime, WM_LBUTTONDBLCLK,
    WM_MOUSEHWHEEL, WM_MOUSEMOVE, WM_MOUSEWHEEL, WM_XBUTTONUP,
};
use kiri::json::{JsonNumber, JsonValue};

fn obj(members: Vec<(&str, JsonValue)>) -> JsonValue {
    JsonValue::Object(members.into_iter().map(|(k, v)| (k.to_string(), v)).collect())
}

fn text(s: &str) -> JsonValue {
    JsonValue::Text(s.to_string())
}

fn get<'a>(value: &'a JsonValue, key: &str) -> Option<&'a JsonValue> {
    match value {
        JsonValue::Object(members) => members.iter().rev().find(|(k, _)| k == key).map(|(_, v)| v),
        _ => None,
    }
}

fn text_of(value: Option<&JsonValue>) -> Option<&str> {
    match value {
        Some(JsonValue::Text(s)) => Some(s.as_str()),
        _ => None,
    }
}

#[test]
fn hook_timestamp_adds_elapsed_and_saturates() {
    assert_eq!(hook_timestamp(1_000, 250), 1_250);
    assert_eq!(hook_timestamp(-5, 3), -2);
    assert_eq!(hook_timestamp(10, u128::MAX), i64::MAX);
    assert_eq!(hook_timestamp(i64::MAX - 1, 5), i64::MAX);
}

#[test]
fn hook_reports_wheel_as_delta_and_buttons_as_clicks() {
    assert!(mouse_event_for(WM_MOUSEMOVE, 0, 1, 2, 3, None).is_none());
    let wheel = mouse_event_for(WM_MOUSEWHEEL, 0xFF88_0000, 7, 10, 20, Some(CursorType::Pointer)).unwrap();
    assert_eq!(wheel.wheel_delta, -120);
    assert!(wheel.button.is_none() && wheel.phase.is_none());
    assert_eq!(wheel.click_count, 0);
    assert!(wheel.is_wheel());
    let hwheel = mouse_event_for(WM_MOUSEHWHEEL, 120 << 16, 7, 10, 20, None).unwrap();
    assert_eq!(hwheel.wheel_delta, 120);
    let double = mouse_event_for(WM_LBUTTONDBLCLK, 0, 9, 1, 1, None).unwrap();
    assert_eq!(double.button, Some(MouseButton::Left));
    assert_eq!(double.phase, Some(ButtonPhase::Press));
    assert_eq!(double.click_count, 2);
    assert_eq!(double.wheel_delta, 0);
    let x2 = mouse_event_for(WM_XBUTTONUP, 2 << 16, 9, 1, 1, None).unwrap();
    assert_eq!(x2.button, Some(MouseButton::X2));
    assert_eq!(x2.phase, Some(ButtonPhase::Release));
    assert!(mouse_event_for(0x0400, 0, 9, 1, 1, None).is_none());
}

#[test]
fn cursor_shape_comes_from_first_matching_handle() {
    let known = vec![(11usize, CursorType::Text), (12, CursorType::Pointer), (11, CursorType::Arrow)];
    assert_eq!(cursor_type_for_handle(&known, true, 11), Some(CursorType::Text));
    assert_eq!(cursor_type_for_handle(&known, true, 12), Some(CursorType::Pointer));
    assert_eq!(cursor_type_for_handle(&known, true, 99), Some(CursorType::Arrow));
    assert_eq!(cursor_type_for_handle(&known, false, 12), None);
}

#[test]
fn timestamp_order_is_stable() {
    let stamps = vec![30, 10, 30, 20, 10];
    assert_eq!(timestamp_order(&stamps), vec![1, 4, 3, 0, 2]);
    assert!(timestamp_order(&Vec::new()).is_empty());
}

#[test]
fn row_time_prefers_micros_then_millis() {
    let kiri_row = obj(vec![("timestampMicros", JsonValue::Number(JsonNumber::UInt(42)))]);
    assert_eq!(row_time(&kiri_row), RowTime::Micros(42));
    let snake = obj(vec![("timestamp_micros", JsonValue::Number(JsonNumber::Int(-3)))]);
    assert_eq!(row_time(&snake), RowTime::Micros(-3));
    let recordly = obj(vec![("timeMs", JsonValue::Number(JsonNumber::Float(1.5f64.to_bits())))]);
    assert_eq!(row_time(&recordly), RowTime::Millis(JsonNumber::Float(1.5f64.to_bits())));
    let odd = obj(vec![("timestampMicros", text("soon")), ("timestamp_micros", JsonValue::Number(JsonNumber::UInt(5)))]);
    assert_eq!(row_time(&odd), RowTime::Missing);
    let too_big = obj(vec![("timestampMicros", JsonValue::Number(JsonNumber::UInt(u64::MAX)))]);
    assert_eq!(row_time(&too_big), RowTime::Missing);
    assert_eq!(row_time(&JsonValue::Null), RowTime::Missing);
}

#[test]
fn row_shapes_pick_the_reader() {
    let kiri_row = obj(vec![("timestamp_micros", JsonValue::Number(JsonNumber::UInt(1)))]);
    assert_eq!(cursor_row(&kiri_row), CursorRow::Kiri);
    let recordly = obj(vec![("timeMs", JsonValue::Number(JsonNumber::UInt(1)))]);
    assert_eq!(cursor_row(&recordly), CursorRow::Recordly);
    assert_eq!(cursor_row(&obj(vec![("cx", text("x"))])), CursorRow::Skip);
    assert!(is_click_row(&recordly));
    assert!(is_click_row(&kiri_row));
    assert!(!is_click_row(&JsonValue::Array(Vec::new())));
}

#[test]
fn diagnostics_values_truncate_nested_strings() {
    let long: String = std::iter::repeat('a').take(MAX_DIAGNOSTICS_TEXT_CHARS + 5).collect();
    let value = obj(vec![
        ("events", JsonValue::Array(vec![text(&long), JsonValue::Bool(true)])),
        ("short", text("ok")),
    ]);
    let out = truncate_diagnostics_value(&value);
    let expected_tail: String = std::iter::repeat('a').take(MAX_DIAGNOSTICS_TEXT_CHARS).collect();
    let expected = format!("{expected_tail}\n[truncated to last {MAX_DIAGNOSTICS_TEXT_CHARS} chars]");
    match get(&out, "events") {
        Some(JsonValue::Array(items)) => {
            assert_eq!(text_of(items.first()), Some(expected.as_str()));
            assert!(matches!(items[1], JsonValue::Bool(true)));
        }
        _ => panic!("events missing"),
    }
    assert_eq!(text_of(get(&out, "short")), Some("ok"));
}

#[test]
fn diagnostics_event_carries_time_and_snapshot() {
    let snapshot = obj(vec![("encoder", text("x264")), ("droppedFrames", JsonValue::Number(JsonNumber::UInt(3)))]);
    let event = diagnostics_event(&snapshot, "2024-01-01T00:00:00Z");
    assert_eq!(text_of(get(&event, "timestamp")), Some("2024-01-01T00:00:00Z"));
    assert_eq!(text_of(get(&event, "encoder")), Some("x264"));
    assert!(matches!(get(&event, "droppedFrames"), Some(JsonValue::Number(JsonNumber::UInt(3)))));
    let only_time = diagnostics_event(&JsonValue::Null, "t");
    match only_time {
        JsonValue::Object(members) => assert_eq!(members.len(), 1),
        _ => panic!("not an object"),
    }
}

#[test]
fn diagnostics_log_keeps_history_and_sets_paths() {
    let log = obj(vec![
        ("version", JsonValue::Number(JsonNumber::UInt(7))),
        ("createdAt", text("earlier")),
        ("custom", text("kept")),
    ]);
    let snapshot = obj(vec![("encoder", text("nvenc"))]);
    let out = record_diagnostics_snapshot(log, &snapshot, "now", "C:\\rec\\screen.mp4", "C:\\rec\\screen.mp4.recording-diagnostics.json");
    assert!(matches!(get(&out, "version"), Some(JsonValue::Number(JsonNumber::UInt(7)))));
    assert_eq!(text_of(get(&out, "createdAt")), Some("earlier"));
    assert_eq!(text_of(get(&out, "updatedAt")), Some("now"));
    assert_eq!(text_of(get(&out, "videoPath")), Some("C:/rec/screen.mp4"));
    assert_eq!(text_of(get(&out, "diagnosticsPath")), Some("C:/rec/screen.mp4.recording-diagnostics.json"));
    assert_eq!(text_of(get(&out, "custom")), Some("kept"));
    match get(&out, "events") {
        Some(JsonValue::Array(items)) => {
            assert_eq!(items.len(), 1);
            assert_eq!(text_of(get(&items[0], "encoder")), Some("nvenc"));
        }
        _ => panic!("events missing"),
    }
    let latest = get(&out, "latest").unwrap();
    assert_eq!(text_of(get(latest, "timestamp")), Some("now"));
}

#[test]
fn diagnostics_log_starts_fresh_and_stays_bounded() {
    let out = record_diagnostics_snapshot(text("corrupt"), &JsonValue::Null, "t0", "a.mp4", "b.json");
    assert!(matches!(get(&out, "version"), Some(JsonValue::Number(JsonNumber::UInt(1)))));
    assert_eq!(text_of(get(&out, "createdAt")), Some("t0"));
    let mut log = out;
    for i in 0..(MAX_DIAGNOSTICS_EVENTS + 3) {
        log = record_diagnostics_snapshot(log, &JsonValue::Null, &format!("t{}", i + 1), "a.mp4", "b.json");
    }
    match get(&log, "events") {
        Some(JsonValue::Array(items)) => {
            assert_eq!(items.len(), MAX_DIAGNOSTICS_EVENTS);
            let last = MAX_DIAGNOSTICS_EVENTS + 3;
            assert_eq!(text_of(get(items.last().unwrap(), "timestamp")), Some(format!("t{last}").as_str()));
            assert_eq!(text_of(get(&items[0], "timestamp")), Some(format!("t{}", last - MAX_DIAGNOSTICS_EVENTS + 1).as_str()));
        }
        _ => panic!("events missing"),
    }
    assert_eq!(text_of(get(&log, "createdAt")), Some("t0"));
}

#[test]
fn diagnostics_log_repairs_a_broken_event_list() {
    let log = obj(vec![("events", text("torn"))]);
    let out = record_diagnostics_snapshot(log, &JsonValue::Null, "t", "v", "d");
    match get(&out, "events") {
        Some(JsonValue::Array(items)) => assert_eq!(items.len(), 1),
        _ => panic!("events missing"),
    }
}
