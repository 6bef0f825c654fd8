//! Tests for time parsing and display formatting.

use eventsleuth::calendar::timestamp_from_ymd_hms_ms;
use eventsleuth::timefmt::{
    format_duration, format_table_timestamp, parse_datetime_input, parse_system_time,
};

#[test]
fn format_duration_sub_second() {
    let s = format_duration(350);
    assert!(
        s.contains("0.4") || s.contains("0.3"),
        "Expected ~0.3-0.4s, got: {s}"
    );
}

#[test]
fn format_duration_seconds() {
    let s = format_duration(5000);
    assert_eq!(s, "5.0s");
}

#[test]
fn format_duration_minutes() {
    let s = format_duration(90_000);
    assert!(s.contains("1.5m"), "Expected 1.5m, got: {s}");
}

#[test]
fn test_format_duration_millis() {
    let s = format_duration(5);
    assert!(s.contains("ms"), "Expected ms, got: {s}");
}

#[test]
fn test_format_duration_seconds() {
    let s = format_duration(1200);
    assert_eq!(s, "1.2s");
}

#[test]
fn format_table_timestamp_has_expected_format() {
    let ts = timestamp_from_ymd_hms_ms(2024, 6, 15, 14, 30, 0, 0);
    let formatted = format_table_timestamp(ts);
    assert!(
        formatted.contains("2024"),
        "Should contain year: {formatted}"
    );
    assert!(
        formatted.contains("06") || formatted.contains("6"),
        "Should contain month"
    );
}

#[test]
fn parse_datetime_full() {
    let result = parse_datetime_input("2024-06-15 14:30:00");
    assert!(result.is_some(), "Should parse full datetime");
}

#[test]
fn parse_datetime_no_seconds() {
    let result = parse_datetime_input("2024-06-15 14:30");
    assert!(result.is_some(), "Should parse datetime without seconds");
}

#[test]
fn parse_datetime_date_only() {
    let result = parse_datetime_input("2024-06-15");
    assert!(result.is_some(), "Should parse date-only input");
}

#[test]
fn parse_datetime_empty_returns_none() {
    assert!(parse_datetime_input("").is_none());
    assert!(parse_datetime_input("   ").is_none());
}

#[test]
fn parse_datetime_invalid_returns_none() {
    assert!(parse_datetime_input("not-a-date").is_none());
    assert!(parse_datetime_input("2024-13-40").is_none());
}

#[test]
fn parse_datetime_whitespace_trimmed() {
    let result = parse_datetime_input("  2024-06-15  ");
    assert!(result.is_some(), "Should trim whitespace");
}

#[test]
fn test_parse_datetime_date_only() {
    let result = parse_datetime_input("2024-06-15");
    assert!(result.is_some(), "Should parse date-only input");
}

#[test]
fn test_parse_datetime_empty() {
    assert!(parse_datetime_input("").is_none());
}

#[test]
fn test_parse_system_time_7_digits() {
    let dt = parse_system_time("2024-01-15T10:23:45.1234567Z");
    assert!(dt.is_some());
}

#[test]
fn test_parse_system_time_3_digits() {
    let dt = parse_system_time("2024-01-15T10:23:45.123Z");
    assert!(dt.is_some());
}

#[test]
fn parse_system_time_exact_values() {
    assert_eq!(parse_system_time("1970-01-01T00:00:00Z"), Some(0));
    assert_eq!(parse_system_time("1970-01-02T00:00:00Z"), Some(86_400_000));
    assert_eq!(
        parse_system_time("2024-01-15T10:00:00.250Z"),
        Some(1_705_312_800_250)
    );
    // An explicit offset shifts the instant back to UTC.
    assert_eq!(parse_system_time("1970-01-01T01:00:00+01:00"), Some(0));
    assert_eq!(
        parse_system_time("1969-12-31T23:00:00-01:00"),
        Some(0)
    );
}

#[test]
fn parse_system_time_rejects_malformed() {
    assert!(parse_system_time("").is_none());
    assert!(parse_system_time("2024-01-15 10:00:00Z").is_none());
    assert!(parse_system_time("2024-13-15T10:00:00Z").is_none());
    assert!(parse_system_time("2024-02-30T10:00:00Z").is_none());
    assert!(parse_system_time("2024-01-15T10:00:00.Z").is_none());
    assert!(parse_system_time("2024-01-15T10:00:00").is_none());
}

#[test]
fn civil_conversion_exact_values() {
    assert_eq!(timestamp_from_ymd_hms_ms(1970, 1, 1, 0, 0, 0, 0), 0);
    assert_eq!(
        timestamp_from_ymd_hms_ms(2024, 1, 15, 10, 0, 0, 0),
        1_705_312_800_000
    );
    // The leap day of 2024 exists.
    assert_eq!(
        timestamp_from_ymd_hms_ms(2024, 3, 1, 0, 0, 0, 0)
            - timestamp_from_ymd_hms_ms(2024, 2, 28, 0, 0, 0, 0),
        2 * 86_400_000
    );
    // Pre-epoch dates are negative.
    assert_eq!(
        timestamp_from_ymd_hms_ms(1969, 12, 31, 0, 0, 0, 0),
        -86_400_000
    );
}

#[test]
fn format_duration_exact_boundaries() {
    assert_eq!(format_duration(0), "0.0ms");
    assert_eq!(format_duration(9), "9.0ms");
    assert_eq!(format_duration(10), "0.0s");
    assert_eq!(format_duration(100), "0.1s");
    assert_eq!(format_duration(59_940), "59.9s");
    assert_eq!(format_duration(60_000), "1.0m");
}
