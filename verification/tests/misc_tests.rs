use kiri::credentials::{deletion_outcome, secret_lookup, store_outcome, CredentialError, KeyringFailure, SecretTable, WindowsCredentialStore};
use kiri::editor::{clamp_zoom_depth, ordered_range, ZoomMode, EDITOR_SCHEMA_VERSION};
use kiri::input::{CursorType, InputError};
use kiri::text::{parse_unsigned, UnsignedParse};

#[test]
fn secret_table_round_trip() {
    let mut store = SecretTable::new();
    store.set("provider", "secret");
    assert_eq!(store.get("provider").as_deref(), Some("secret"));
    store.set("other", "x");
    store.set("provider", "rotated");
    assert_eq!(store.get("provider").as_deref(), Some("rotated"));
    assert_eq!(store.get("other").as_deref(), Some("x"));
    store.delete("provider");
    assert!(store.get("provider").is_none());
    assert_eq!(store.get("other").as_deref(), Some("x"));
}

#[test]
fn keyring_answers_map_to_store_results() {
    assert_eq!(secret_lookup(Ok("s".into())).unwrap(), Some("s".into()));
    assert_eq!(secret_lookup(Err(KeyringFailure::NoEntry)).unwrap(), None);
    assert!(secret_lookup(Err(KeyringFailure::Other("locked".into()))).is_err());
    assert!(deletion_outcome(Err(KeyringFailure::NoEntry)).is_ok());
    assert!(store_outcome(Err(KeyringFailure::NoEntry)).is_err());
    let e = CredentialError::Store("locked".into());
    assert_eq!(e.message(), "credential store error: locked");
    assert_eq!(WindowsCredentialStore::new("kiri".into()).service(), "kiri");
}

#[test]
fn editor_ranges_and_depths_are_repaired() {
    assert_eq!(ordered_range(900, 100), (100, 900));
    assert_eq!(ordered_range(100, 900), (100, 900));
    assert_eq!(clamp_zoom_depth(99), 6);
    assert_eq!(clamp_zoom_depth(0), 1);
    assert_eq!(clamp_zoom_depth(3), 3);
    assert_eq!(ZoomMode::default(), ZoomMode::Manual);
    assert_eq!(EDITOR_SCHEMA_VERSION, 2);
}

#[test]
fn cursor_names_round_trip() {
    for c in [
        CursorType::Arrow,
        CursorType::Text,
        CursorType::Pointer,
        CursorType::Crosshair,
        CursorType::OpenHand,
        CursorType::ClosedHand,
        CursorType::ResizeEw,
        CursorType::ResizeNs,
        CursorType::NotAllowed,
    ] {
        assert_eq!(CursorType::from_recordly_str(c.as_recordly_str()), Some(c));
    }
    assert_eq!(CursorType::from_recordly_str("ibeam"), Some(CursorType::Text));
    assert_eq!(CursorType::from_recordly_str("bogus"), None);
    assert_eq!(InputError::Unsupported.message(), "input telemetry is only available on Windows");
}

#[test]
fn unsigned_numbers_parse_like_from_str() {
    assert_eq!(parse_unsigned("42", u64::MAX), UnsignedParse::Value(42));
    assert_eq!(parse_unsigned("+7", u64::MAX), UnsignedParse::Value(7));
    assert_eq!(parse_unsigned("", u64::MAX), UnsignedParse::Empty);
    assert_eq!(parse_unsigned("+", u64::MAX), UnsignedParse::InvalidDigit);
    assert_eq!(parse_unsigned("-1", u64::MAX), UnsignedParse::InvalidDigit);
    assert_eq!(parse_unsigned("256", 255), UnsignedParse::Overflow);
    assert_eq!(parse_unsigned("18446744073709551615", u64::MAX), UnsignedParse::Value(u64::MAX));
    assert_eq!(parse_unsigned("18446744073709551616", u64::MAX), UnsignedParse::Overflow);
}

#[test]
fn a_missing_entry_on_store_keeps_the_keyring_wording() {
    match store_outcome(Err(KeyringFailure::NoEntry)) {
        Err(CredentialError::Store(m)) => assert_eq!(m, "No matching entry found in secure storage"),
        _ => panic!("expected a store error"),
    }
}
