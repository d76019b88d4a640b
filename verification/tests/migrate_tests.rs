use kiri::json::{JsonNumber, JsonValue};
use kiri::migrate::{declared_version, migrate};
use kiri::project::{ProjectError, CURRENT_SCHEMA_VERSION};
use serde_json::Value;

fn j(text: &str) -> Value {
    serde_json::from_str(text).unwrap()
}

fn to_kiri(v: Value) -> JsonValue {
    match v {
        Value::Null => JsonValue::Null,
        Value::Bool(b) => JsonValue::Bool(b),
        Value::Number(n) => {
            if let Some(u) = n.as_u64() {
                JsonValue::Number(JsonNumber::UInt(u))
            } else if let Some(i) = n.as_i64() {
                JsonValue::Number(JsonNumber::Int(i))
            } else {
                JsonValue::Number(JsonNumber::Float(n.as_f64().unwrap_or(0.0).to_bits()))
            }
        }
        Value::String(s) => JsonValue::Text(s),
        Value::Array(xs) => JsonValue::Array(xs.into_iter().map(to_kiri).collect()),
        Value::Object(m) => JsonValue::Object(m.into_iter().map(|(k, v)| (k, to_kiri(v))).collect()),
    }
}

fn from_kiri(v: JsonValue) -> Value {
    match v {
        JsonValue::Null => Value::Null,
        JsonValue::Bool(b) => Value::Bool(b),
        JsonValue::Number(JsonNumber::UInt(u)) => Value::from(u),
        JsonValue::Number(JsonNumber::Int(i)) => Value::from(i),
        JsonValue::Number(JsonNumber::Float(bits)) => Value::from(f64::from_bits(bits)),
        JsonValue::Text(s) => Value::String(s),
        JsonValue::Array(xs) => Value::Array(xs.into_iter().map(from_kiri).collect()),
        JsonValue::Object(m) => {
            let mut map = serde_json::Map::new();
            for (k, v) in m {
                map.insert(k, from_kiri(v));
            }
            Value::Object(map)
        }
    }
}

fn run(v: Value) -> Result<Value, ProjectError> {
    migrate(to_kiri(v)).map(from_kiri)
}

#[test]
fn migrate_rejects_unknown_future_schemas() {
    let value = j(r#"{"schemaVersion": 999, "id": "00000000-0000-4000-8000-000000000000", "title": "Future"}"#);
    assert!(run(value).is_err());
}

#[test]
fn migrate_is_total_over_garbage_roots() {
    for text in [
        "null",
        "42",
        "\"hello\"",
        "[]",
        r#"[{"schemaVersion": 1}]"#,
        r#"{"schema_version": "not-a-number"}"#,
    ] {
        let result = run(j(text));
        if let Ok(v) = result {
            assert!(v.is_object());
        }
    }
    for future in [3, 99, 999, u32::MAX] {
        let text = format!("{{\"schemaVersion\": {future}}}");
        match run(j(&text)) {
            Err(ProjectError::UnsupportedSchema(v)) => assert_eq!(v, future),
            other => panic!("wrong result for future {future}: {other:?}"),
        }
    }
}

#[test]
fn migrates_snake_case_current_payload() {
    let value = j(r#"{
        "schemaVersion": 2,
        "id": "id",
        "title": "Snake",
        "frame_rate": { "numerator": 30, "denominator": 1 },
        "sources": [{ "id": "s", "kind": "screen_video", "relative_path": "media/a.mp4" }],
        "tracks": [{ "id": "t", "kind": "screen", "clips": [
            { "id": "c", "source_id": "s", "start": 0, "duration": 100, "source_offset": 0 }
        ]}],
        "edit_regions": [],
        "cache_entries": [],
        "recording_sessions": [{ "wall_time_utc": "2026-01-01T00:00:00Z", "qpc_frequency": 10 }]
    }"#);
    let migrated = run(value).unwrap();
    assert_eq!(migrated["frameRate"]["numerator"], Value::from(30));
    assert!(migrated.get("frame_rate").is_none());
    assert_eq!(migrated["sources"][0]["relativePath"], Value::from("media/a.mp4"));
    assert!(migrated["sources"][0].get("relative_path").is_none());
    assert_eq!(migrated["tracks"][0]["clips"][0]["sourceId"], Value::from("s"));
    assert_eq!(migrated["tracks"][0]["clips"][0]["sourceOffset"], Value::from(0));
    assert_eq!(migrated["recordingSessions"][0]["qpcFrequency"], Value::from(10));
    assert!(migrated.get("editRegions").is_some());
    assert_eq!(migrated["schemaVersion"], Value::from(CURRENT_SCHEMA_VERSION));
}

#[test]
fn old_manifests_get_the_current_version_and_every_list() {
    let migrated = run(j(r#"{
        "schemaVersion": "1",
        "title": "Coerced",
        "frameRate": { "numerator": 30, "denominator": 1 },
        "duration": 123.6
    }"#))
    .unwrap();
    assert_eq!(migrated.get("schemaVersion").and_then(|v| v.as_u64()), Some(2));
    for list in ["sources", "tracks", "editRegions", "artifacts", "cacheEntries", "recordingSessions"] {
        assert_eq!(migrated[list], j("[]"), "{list}");
    }
    assert_eq!(migrated["duration"], Value::from(123.6));
    let migrated = run(j(r#"{ "schema_version": 0, "title": "v0", "sources": [1] }"#)).unwrap();
    assert!(migrated.get("schema_version").is_none());
    assert_eq!(migrated["sources"], j("[1]"));
    match run(j("[1, 2]")) {
        Err(ProjectError::Validation(m)) => assert_eq!(m, "manifest root must be an object"),
        other => panic!("unexpected {other:?}"),
    }
}

#[test]
fn editor_aliases_prefer_the_current_names() {
    let migrated = run(j(r#"{
        "schemaVersion": 2,
        "editor": { "zoomRegions": [1], "zoom_regions": [2], "clipRegions": [3], "clips": [4] }
    }"#))
    .unwrap();
    assert_eq!(migrated["editor"]["zooms"], j("[2]"));
    assert_eq!(migrated["editor"]["clips"], j("[4]"));
    assert!(migrated["editor"].get("zoomRegions").is_none());
    assert!(migrated["editor"].get("clipRegions").is_none());
}

#[test]
fn versions_are_read_from_numbers_and_text() {
    assert_eq!(declared_version(&to_kiri(j(r#"{ "schemaVersion": " 2 " }"#))), 2);
    assert_eq!(declared_version(&to_kiri(j(r#"{ "schema_version": 1 }"#))), 1);
    assert_eq!(declared_version(&to_kiri(j(r#"{ "schemaVersion": null, "schema_version": 2 }"#))), 0);
    assert_eq!(declared_version(&to_kiri(j(r#"{ "schemaVersion": 4294967298 }"#))), u32::MAX);
    assert_eq!(declared_version(&to_kiri(j(r#"{ "schemaVersion": "18446744073709551615" }"#))), u32::MAX);
    assert_eq!(declared_version(&to_kiri(j("[2]"))), 0);
}

#[test]
fn versions_beyond_32_bits_are_refused_not_wrapped() {
    for text in [r#"{"schemaVersion": 4294967296}"#, r#"{"schemaVersion": 4294967298}"#, r#"{"schema_version": "99999999999"}"#] {
        match migrate(to_kiri(j(text))) {
            Err(ProjectError::UnsupportedSchema(v)) => assert_eq!(v, u32::MAX),
            other => panic!("wrong result for {text}: {other:?}"),
        }
    }
}
