use kiri::cli::{check_capture_seconds, invalid_input, parse_optional, restore_extent};

#[test]
fn diagnostic_seconds_reject_out_of_range_without_panicking() {
    let seconds: u64 = 3601;
    assert!(seconds > 3600);
    assert!(check_capture_seconds(seconds).is_err());
    let ok: u64 = 5;
    assert!(ok <= 3600);
    assert_eq!(check_capture_seconds(ok).unwrap(), 5);
}

#[test]
fn missing_cli_value_uses_default_but_invalid_value_errors() {
    let fallback: u64 = parse_optional(None, 5, "seconds").unwrap();
    assert_eq!(fallback, 5);
    assert!(parse_optional(Some("abc".into()), 5_u64, "seconds").is_err());
    assert_eq!(parse_optional(Some("7".into()), 5_u64, "seconds").unwrap(), 7);
}

#[test]
fn zero_duration_fps_reports_zero_instead_of_infinity() {
    let frames = 10_u64;
    let duration = 0.0_f64;
    let effective = if duration > 0.0 { frames as f64 / duration } else { 0.0 };
    assert_eq!(effective, 0.0);
    assert!(effective.is_finite());
}

#[test]
fn missing_arg_message_is_actionable() {
    let error = invalid_input("project root required");
    assert!(error.message().contains("project root required"));
}

#[test]
fn restore_extent_math_saturates_without_panicking() {
    assert_eq!(restore_extent(i32::MIN, i32::MAX), 16_384);
    assert_eq!(restore_extent(0, 100), 100);
    assert_eq!(restore_extent(100, 0), 1);
}

#[test]
fn invalid_values_name_the_argument_and_the_reason() {
    assert_eq!(
        parse_optional(Some("abc".into()), 5, "seconds").unwrap_err(),
        "invalid seconds 'abc': invalid digit found in string; check CLI usage"
    );
    assert_eq!(
        parse_optional(Some("".into()), 5, "fps").unwrap_err(),
        "invalid fps '': cannot parse integer from empty string; check CLI usage"
    );
    assert_eq!(
        parse_optional(Some("99999999999999999999".into()), 5, "seconds").unwrap_err(),
        "invalid seconds '99999999999999999999': number too large to fit in target type; check CLI usage"
    );
    assert_eq!(parse_optional(Some("+12".into()), 5, "seconds").unwrap(), 12);
    assert_eq!(
        kiri::cli::parse_optional_bounded(Some("70000".into()), 60, u32::MAX as u64, "fps").unwrap(),
        70_000
    );
    assert_eq!(
        check_capture_seconds(0).unwrap_err(),
        "invalid seconds '0'; expected 1..=3600"
    );
}
