//! The textual timestamp format: exact parses, exact renderings, and the
//! calendar rules.

use flower::timestamp::{days_in_month, format_timestamp, parse_timestamp, Timestamp};

fn ts(year: u16, month: u8, day: u8, hour: u8, minute: u8, second: u8) -> Timestamp {
    Timestamp { year, month, day, hour, minute, second }
}

#[test]
fn parses_exact_value() {
    assert_eq!(parse_timestamp("2024-01-02 09:05:59"), Some(ts(2024, 1, 2, 9, 5, 59)));
    assert_eq!(parse_timestamp("0000-01-01 00:00:00"), Some(ts(0, 1, 1, 0, 0, 0)));
    assert_eq!(parse_timestamp("9999-12-31 23:59:59"), Some(ts(9999, 12, 31, 23, 59, 59)));
}

#[test]
fn rejects_malformed_shapes() {
    assert_eq!(parse_timestamp(""), None);
    assert_eq!(parse_timestamp("2024-01-02"), None);
    assert_eq!(parse_timestamp("2024-01-02 09:05:5"), None);
    assert_eq!(parse_timestamp("2024/01/02 09:05:59"), None);
    assert_eq!(parse_timestamp("2024-01-02T09:05:59"), None);
    assert_eq!(parse_timestamp("2024-01-02 09:05:5x"), None);
    assert_eq!(parse_timestamp("yesterday morning ok"), None);
}

#[test]
fn rejects_impossible_calendar_moments() {
    assert_eq!(parse_timestamp("2024-00-02 09:05:59"), None);
    assert_eq!(parse_timestamp("2024-13-02 09:05:59"), None);
    assert_eq!(parse_timestamp("2024-01-00 09:05:59"), None);
    assert_eq!(parse_timestamp("2024-01-32 09:05:59"), None);
    assert_eq!(parse_timestamp("2024-04-31 09:05:59"), None);
    assert_eq!(parse_timestamp("2024-01-02 24:05:59"), None);
    assert_eq!(parse_timestamp("2024-01-02 09:60:59"), None);
    assert_eq!(parse_timestamp("2024-01-02 09:05:60"), None);
}

#[test]
fn leap_years_follow_the_gregorian_rule() {
    assert_eq!(parse_timestamp("2024-02-29 00:00:00"), Some(ts(2024, 2, 29, 0, 0, 0)));
    assert_eq!(parse_timestamp("2023-02-29 00:00:00"), None);
    assert_eq!(parse_timestamp("1900-02-29 00:00:00"), None);
    assert_eq!(parse_timestamp("2000-02-29 00:00:00"), Some(ts(2000, 2, 29, 0, 0, 0)));
    assert_eq!(days_in_month(2024, 2), 29);
    assert_eq!(days_in_month(2023, 2), 28);
    assert_eq!(days_in_month(2024, 4), 30);
    assert_eq!(days_in_month(2024, 12), 31);
}

#[test]
fn formats_exact_value() {
    assert_eq!(format_timestamp(&ts(2024, 1, 2, 9, 5, 59)), "2024-01-02 09:05:59");
    assert_eq!(format_timestamp(&ts(0, 12, 31, 23, 0, 0)), "0000-12-31 23:00:00");
}

#[test]
fn format_then_parse_round_trips() {
    let samples = vec![
        ts(2024, 2, 29, 23, 59, 59),
        ts(1987, 7, 1, 0, 30, 0),
        ts(9999, 12, 31, 23, 59, 59),
    ];
    for t in samples {
        assert_eq!(parse_timestamp(&format_timestamp(&t)), Some(t));
    }
}
