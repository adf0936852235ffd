//! Dates and instants.

use my_task_sync::date::{Date, Timestamp};

fn d(y: i32, m: u32, day: u32) -> Date {
    Date::from_ymd(y, m, day).unwrap()
}

fn ts(s: &str) -> Timestamp {
    Timestamp::parse(s).unwrap()
}

#[test]
fn only_dates_of_the_calendar_exist() {
    assert!(Date::from_ymd(2024, 2, 29).is_some());
    assert!(Date::from_ymd(2023, 2, 29).is_none());
    assert!(Date::from_ymd(2000, 2, 29).is_some());
    assert!(Date::from_ymd(1900, 2, 29).is_none());
    assert!(Date::from_ymd(-4, 2, 29).is_some());
    assert!(Date::from_ymd(2026, 4, 31).is_none());
    assert!(Date::from_ymd(2026, 13, 1).is_none());
    assert!(Date::from_ymd(2026, 0, 1).is_none());
    assert!(Date::from_ymd(2026, 1, 0).is_none());
    assert!(Date::from_ymd(-262143, 1, 1).is_some());
    assert!(Date::from_ymd(-262144, 12, 31).is_none());
    assert!(Date::from_ymd(262142, 12, 31).is_some());
    assert!(Date::from_ymd(262143, 1, 1).is_none());
}

#[test]
fn dates_agree_with_the_calendar_crate() {
    for (y, m, day) in [(2026, 4, 18), (1, 1, 1), (0, 12, 31), (-262143, 1, 1), (262142, 12, 31)] {
        let ours = d(y, m, day);
        let theirs = chrono::NaiveDate::from_ymd_opt(y, m, day).unwrap();
        assert_eq!(ours.format(), theirs.format("%Y-%m-%d").to_string());
        let midnight = theirs.and_hms_opt(0, 0, 0).unwrap().and_utc();
        assert_eq!(ours.midnight().parts(), (midnight.timestamp(), 0));
        assert_eq!(ours.midnight().date_naive(), ours);
        assert_eq!(Date::parse(&ours.format()), Ok(ours));
    }
}

#[test]
fn dates_print_with_four_digits_or_a_sign() {
    assert_eq!(d(2026, 4, 8).format(), "2026-04-08");
    assert_eq!(d(7, 1, 1).format(), "0007-01-01");
    assert_eq!(d(12345, 6, 7).format(), "+12345-06-07");
    assert_eq!(d(-1, 12, 31).format(), "-0001-12-31");
    assert_eq!(d(-54321, 12, 31).format(), "-54321-12-31");
}

#[test]
fn loose_dates_are_read_too() {
    assert_eq!(Date::parse("2026-4-8"), Ok(d(2026, 4, 8)));
    assert_eq!(Date::parse(" 2026-04-08"), Ok(d(2026, 4, 8)));
    assert_eq!(Date::parse("+2026-04-08"), Ok(d(2026, 4, 8)));
}

#[test]
fn what_is_no_date_is_refused() {
    assert_eq!(Date::parse(""), Err("premature end of input".to_string()));
    assert_eq!(Date::parse("2026-02-30"), Err("input is out of range".to_string()));
    assert_eq!(Date::parse("2026-04-08x"), Err("trailing input".to_string()));
    assert!(Date::parse("not-a-date").is_err());
}

#[test]
fn later_dates_come_after() {
    assert!(d(2026, 4, 19).is_after(&d(2026, 4, 18)));
    assert!(d(2026, 5, 1).is_after(&d(2026, 4, 30)));
    assert!(d(2027, 1, 1).is_after(&d(2026, 12, 31)));
    assert!(!d(2026, 4, 18).is_after(&d(2026, 4, 18)));
    assert!(!d(2026, 4, 17).is_after(&d(2026, 4, 18)));
}

#[test]
fn instants_lie_on_days_in_utc() {
    assert_eq!(ts("2026-04-18T23:59:59Z").date_naive(), d(2026, 4, 18));
    assert_eq!(ts("2026-04-19T00:00:00Z").date_naive(), d(2026, 4, 19));
    assert_eq!(ts("2026-04-19T08:59:59+09:00").date_naive(), d(2026, 4, 18));
    assert_eq!(ts("1969-12-31T23:59:59Z").date_naive(), d(1969, 12, 31));
    assert_eq!(ts("1970-01-01T00:00:00Z").parts(), (0, 0));
}

#[test]
fn instants_are_read_as_rfc_3339() {
    assert!(Timestamp::parse("2026-04-18").is_none());
    assert!(Timestamp::parse("2026-04-18T10:00:00").is_none());
    assert!(Timestamp::parse("not-a-date").is_none());
    assert_eq!(ts("2026-04-18T10:00:00.25Z").parts().1, 250_000_000);
    assert_eq!(ts("2016-12-31T23:59:60Z").parts().1, 1_000_000_000);
}

#[test]
fn instants_print_as_rfc_3339() {
    let instant = ts("2026-04-18T10:30:05.25Z");
    assert_eq!(instant.to_iso(), "2026-04-18T10:30:05Z");
    assert_eq!(instant.to_rfc3339(), "2026-04-18T10:30:05.250Z");
    assert_eq!(ts("2026-04-12T12:00:00Z").to_rfc3339(), "2026-04-12T12:00:00Z");
    assert_eq!(ts("2016-12-31T23:59:60Z").to_iso(), "2016-12-31T23:59:60Z");
    for text in ["2026-04-18T10:30:05.123456789Z", "2016-12-31T23:59:60.5Z", "0000-01-01T00:00:00Z"] {
        assert_eq!(Timestamp::parse(&ts(text).to_rfc3339()), Some(ts(text)));
    }
}

#[test]
fn only_instants_in_range_exist() {
    assert!(Timestamp::new(-8334601228800, 0).is_some());
    assert!(Timestamp::new(-8334601228801, 0).is_none());
    assert!(Timestamp::new(8210266876799, 999_999_999).is_some());
    assert!(Timestamp::new(8210266876800, 0).is_none());
    assert!(Timestamp::new(59, 1_500_000_000).is_some());
    assert!(Timestamp::new(-1, 1_500_000_000).is_some());
    assert!(Timestamp::new(0, 1_000_000_000).is_none());
    assert!(Timestamp::new(59, 2_000_000_000).is_none());
    let first = chrono::DateTime::<chrono::Utc>::MIN_UTC;
    let last = chrono::DateTime::<chrono::Utc>::MAX_UTC;
    assert_eq!(first.timestamp(), -8334601228800);
    assert_eq!(last.timestamp(), 8210266876799);
}
