use web_core::time::{month_days, UtcTime, MAX_UNIX_SECS};

fn t(year: u16, month: u8, day: u8, hour: u8, minute: u8, second: u8) -> UtcTime {
    UtcTime { year, month, day, hour, minute, second }
}

#[test]
fn epoch_and_known_instants() {
    assert_eq!(UtcTime::from_unix_secs(0), Some(t(1970, 1, 1, 0, 0, 0)));
    assert_eq!(t(2000, 3, 1, 0, 0, 0).unix_secs(), 951868800);
    assert_eq!(t(2024, 2, 29, 12, 34, 56).unix_secs(), 1709210096);
    assert_eq!(UtcTime::from_unix_secs(1709210096), Some(t(2024, 2, 29, 12, 34, 56)));
}

#[test]
fn largest_instant() {
    assert_eq!(MAX_UNIX_SECS, 253402300799);
    assert_eq!(UtcTime::from_unix_secs(MAX_UNIX_SECS), Some(t(9999, 12, 31, 23, 59, 59)));
    assert_eq!(UtcTime::from_unix_secs(MAX_UNIX_SECS + 1), None);
    assert_eq!(t(9999, 12, 31, 23, 59, 59).add_seconds(1), None);
    assert_eq!(t(9999, 12, 31, 23, 59, 58).add_seconds(1), Some(t(9999, 12, 31, 23, 59, 59)));
}

#[test]
fn add_seconds_crosses_year() {
    assert_eq!(t(2023, 12, 31, 23, 30, 0).add_seconds(1800), Some(t(2024, 1, 1, 0, 0, 0)));
    assert_eq!(t(2023, 2, 28, 0, 0, 0).add_seconds(86400), Some(t(2023, 3, 1, 0, 0, 0)));
    assert_eq!(t(2024, 2, 28, 0, 0, 0).add_seconds(86400), Some(t(2024, 2, 29, 0, 0, 0)));
    assert_eq!(t(2024, 2, 28, 0, 0, 0).add_seconds(0), Some(t(2024, 2, 28, 0, 0, 0)));
}

#[test]
fn iso_format_and_parse() {
    let time = t(2023, 5, 17, 15, 30, 0);
    assert_eq!(time.format_iso(), b"2023-05-17T15:30:00Z".to_vec());
    assert_eq!(UtcTime::parse_iso(b"2023-05-17T15:30:00Z"), Some(time));
    assert_eq!(UtcTime::parse_iso(b"2023-02-29T00:00:00Z"), None);
    assert_eq!(UtcTime::parse_iso(b"2024-02-29T00:00:00Z"), Some(t(2024, 2, 29, 0, 0, 0)));
    assert_eq!(UtcTime::parse_iso(b"2023-05-17T24:00:00Z"), None);
    assert_eq!(UtcTime::parse_iso(b"1969-12-31T23:59:59Z"), None);
    assert_eq!(UtcTime::parse_iso(b"2023-05-17 15:30:00Z"), None);
    assert_eq!(UtcTime::parse_iso(b"2023-05-17T15:30:00"), None);
    assert_eq!(UtcTime::parse_iso(b"2023-0a-17T15:30:00Z"), None);
    assert_eq!(UtcTime::parse_iso(b""), None);
}

#[test]
fn ordering_and_month_lengths() {
    assert!(t(2023, 5, 17, 15, 30, 0).is_before(&t(2023, 5, 17, 15, 30, 1)));
    assert!(!t(2023, 5, 17, 15, 30, 0).is_before(&t(2023, 5, 17, 15, 30, 0)));
    assert!(!t(2024, 1, 1, 0, 0, 0).is_before(&t(2023, 12, 31, 23, 59, 59)));
    assert_eq!(month_days(2023, 2), 28);
    assert_eq!(month_days(2024, 2), 29);
    assert_eq!(month_days(1900, 2), 28);
    assert_eq!(month_days(2000, 2), 29);
    assert_eq!(month_days(2023, 4), 30);
    assert_eq!(month_days(2023, 12), 31);
}
