use time::format_description::well_known::iso8601::{Config, EncodedConfig, TimePrecision};
use time::format_description::well_known::Iso8601;
use time::OffsetDateTime;
use webnovel_epub::source::royal_road::latest_time;
use webnovel_epub::template::format_utc;
use webnovel_epub::timestamp::{parse_iso, Timestamp};

const SECONDS: EncodedConfig = Config::DEFAULT
    .set_time_precision(TimePrecision::Second { decimal_digits: None })
    .encode();

fn stamp(year: i32, month: u8, day: u8, hour: u8, minute: u8, second: u8) -> Timestamp {
    Timestamp::new(year, month, day, hour, minute, second).unwrap()
}

#[test]
fn format_utc_writes_date_time_and_designator() {
    assert_eq!(format_utc(&stamp(2023, 4, 5, 6, 7, 8)), "2023-04-05T06:07:08Z");
    assert_eq!(format_utc(&stamp(0, 1, 1, 0, 0, 0)), "0000-01-01T00:00:00Z");
    assert_eq!(format_utc(&stamp(9999, 12, 31, 23, 59, 59)), "9999-12-31T23:59:59Z");
}

#[test]
fn format_utc_agrees_with_the_time_crate() {
    for seconds in [0i64, 1, 59, 86_399, 951_782_400, 1_672_567_200, 253_402_300_799] {
        let ours = Timestamp::from_unix(seconds).unwrap();
        let theirs = OffsetDateTime::from_unix_timestamp(seconds)
            .unwrap()
            .format(&Iso8601::<SECONDS>)
            .unwrap();
        assert_eq!(format_utc(&ours), theirs);
    }
}

#[test]
fn rendered_timestamp_reads_back() {
    for t in [
        stamp(1999, 12, 31, 23, 59, 59),
        stamp(2000, 2, 29, 0, 0, 0),
        stamp(2024, 2, 29, 12, 0, 1),
        stamp(0, 1, 1, 0, 0, 0),
        stamp(9999, 12, 31, 23, 59, 59),
    ] {
        let text = format_utc(&t);
        assert_eq!(Timestamp::parse_utc(&text), Some(t));
        assert_eq!(parse_iso(&text), Some(t));
    }
}

#[test]
fn new_accepts_dates_of_the_calendar_only() {
    assert!(Timestamp::new(2023, 2, 28, 0, 0, 0).is_some());
    assert!(Timestamp::new(2023, 2, 29, 0, 0, 0).is_none());
    assert!(Timestamp::new(2024, 2, 29, 0, 0, 0).is_some());
    assert!(Timestamp::new(1900, 2, 29, 0, 0, 0).is_none());
    assert!(Timestamp::new(2000, 2, 29, 0, 0, 0).is_some());
    assert!(Timestamp::new(2023, 4, 31, 0, 0, 0).is_none());
    assert!(Timestamp::new(2023, 0, 1, 0, 0, 0).is_none());
    assert!(Timestamp::new(2023, 13, 1, 0, 0, 0).is_none());
    assert!(Timestamp::new(2023, 1, 0, 0, 0, 0).is_none());
    assert!(Timestamp::new(2023, 1, 1, 24, 0, 0).is_none());
    assert!(Timestamp::new(2023, 1, 1, 0, 60, 0).is_none());
    assert!(Timestamp::new(2023, 1, 1, 0, 0, 60).is_none());
    assert!(Timestamp::new(-1, 1, 1, 0, 0, 0).is_none());
    assert!(Timestamp::new(10_000, 1, 1, 0, 0, 0).is_none());
}

#[test]
fn is_valid_tells_dates_from_other_fields() {
    assert!(stamp(2023, 1, 31, 1, 2, 3).is_valid());
    let wrong = Timestamp { year: 2023, month: 2, day: 30, hour: 0, minute: 0, second: 0 };
    assert!(!wrong.is_valid());
}

#[test]
fn from_unix_gives_the_date_in_utc() {
    assert_eq!(Timestamp::from_unix(0), Some(stamp(1970, 1, 1, 0, 0, 0)));
    assert_eq!(Timestamp::from_unix(1_672_567_200), Some(stamp(2023, 1, 1, 10, 0, 0)));
    assert_eq!(Timestamp::from_unix(253_402_300_799), Some(stamp(9999, 12, 31, 23, 59, 59)));
}

#[test]
fn from_unix_refuses_years_without_four_digits() {
    assert_eq!(Timestamp::from_unix(253_402_300_800), None);
    assert_eq!(Timestamp::from_unix(-62_167_219_201), None);
    assert_eq!(Timestamp::from_unix(i64::MAX), None);
    assert_eq!(Timestamp::from_unix(i64::MIN), None);
}

#[test]
fn parse_iso_moves_the_time_to_utc() {
    assert_eq!(parse_iso("2023-02-01T12:30:00+02:00"), Some(stamp(2023, 2, 1, 10, 30, 0)));
    assert_eq!(parse_iso("2023-01-01T00:30:00+01:00"), Some(stamp(2022, 12, 31, 23, 30, 0)));
    assert_eq!(parse_iso("2023-01-01T10:00:00Z"), Some(stamp(2023, 1, 1, 10, 0, 0)));
}

#[test]
fn parse_iso_drops_the_fraction_of_a_second() {
    assert_eq!(parse_iso("2023-01-01T10:00:00.9Z"), Some(stamp(2023, 1, 1, 10, 0, 0)));
}

#[test]
fn parse_iso_refuses_what_is_no_timestamp() {
    assert_eq!(parse_iso(""), None);
    assert_eq!(parse_iso("yesterday"), None);
    assert_eq!(parse_iso("2023-02-30T00:00:00Z"), None);
}

#[test]
fn parse_utc_reads_its_own_form_only() {
    assert_eq!(Timestamp::parse_utc("2023-04-05T06:07:08Z"), Some(stamp(2023, 4, 5, 6, 7, 8)));
    assert_eq!(Timestamp::parse_utc("2023-04-05T06:07:08"), None);
    assert_eq!(Timestamp::parse_utc("2023-04-05 06:07:08Z"), None);
    assert_eq!(Timestamp::parse_utc("2023-04-05T06:07:08+00:00"), None);
    assert_eq!(Timestamp::parse_utc("2023-02-30T06:07:08Z"), None);
    assert_eq!(Timestamp::parse_utc("2023-04-05T06:07:0xZ"), None);
    assert_eq!(Timestamp::parse_utc(""), None);
}

#[test]
fn is_after_orders_by_the_instant() {
    let a = stamp(2023, 1, 31, 23, 59, 59);
    let b = stamp(2023, 2, 1, 0, 0, 0);
    assert!(b.is_after(&a));
    assert!(!a.is_after(&b));
    assert!(!a.is_after(&a));
    assert!(stamp(2023, 1, 1, 0, 0, 1).is_after(&stamp(2023, 1, 1, 0, 0, 0)));
    assert!(stamp(2024, 1, 1, 0, 0, 0).is_after(&stamp(2023, 12, 31, 23, 59, 59)));
}

#[test]
fn latest_time_is_the_maximum() {
    let times = vec![
        stamp(2023, 1, 1, 10, 0, 0),
        stamp(2023, 3, 1, 10, 0, 0),
        stamp(2023, 2, 1, 10, 0, 0),
    ];
    assert_eq!(latest_time(&times), stamp(2023, 3, 1, 10, 0, 0));
    assert_eq!(latest_time(&vec![stamp(2001, 1, 1, 0, 0, 0)]), stamp(2001, 1, 1, 0, 0, 0));
}
