use archive_parser::mastodon::{next_sleep_duration, RateLimitError, SleepDuration};
use archive_parser::time::{parse_twitter_date, rfc3339_duration, DurationError};
use archive_parser::{Timestamp, UnixTime};

#[test]
fn twitter_dates_are_read_without_the_offset() {
    let t = parse_twitter_date("Wed Oct 10 20:19:24 +0000 2018").unwrap();
    assert_eq!(
        (t.year(), t.month(), t.day(), t.hour(), t.minute(), t.second(), t.nanosecond()),
        (2018, 10, 10, 20, 19, 24, 0)
    );
    let u = parse_twitter_date("Sat Dec 10 09:30:01 +0100 2022").unwrap();
    assert_eq!((u.year(), u.month(), u.day(), u.hour()), (2022, 12, 10, 9));
}

#[test]
fn malformed_twitter_dates_are_refused() {
    assert!(parse_twitter_date("2018-10-10 20:19:24").is_none());
    assert!(parse_twitter_date("Wed Oct 32 20:19:24 +0000 2018").is_none());
    assert!(parse_twitter_date("").is_none());
}

#[test]
fn timestamps_display_like_chrono() {
    let t = Timestamp::new(2018, 10, 10, 20, 19, 24, 0).unwrap();
    assert_eq!(t.display(), "2018-10-10 20:19:24");
    let early = Timestamp::new(7, 1, 2, 3, 4, 5, 0).unwrap();
    assert_eq!(early.display(), "0007-01-02 03:04:05");
    let frac = Timestamp::new(2020, 1, 1, 0, 0, 0, 500_000_000).unwrap();
    assert_eq!(frac.display(), "2020-01-01 00:00:00.500");
}

#[test]
fn timestamps_accept_only_calendar_dates() {
    assert!(Timestamp::new(2024, 2, 29, 0, 0, 0, 0).is_some());
    assert!(Timestamp::new(2023, 2, 29, 0, 0, 0, 0).is_none());
    assert!(Timestamp::new(1900, 2, 29, 0, 0, 0, 0).is_none());
    assert!(Timestamp::new(2000, 2, 29, 0, 0, 0, 0).is_some());
    assert!(Timestamp::new(2023, 4, 31, 0, 0, 0, 0).is_none());
    assert!(Timestamp::new(2023, 13, 1, 0, 0, 0, 0).is_none());
    assert!(Timestamp::new(2023, 1, 1, 24, 0, 0, 0).is_none());
    assert!(Timestamp::new(2023, 1, 1, 23, 59, 59, 1_500_000_000).is_some());
    assert!(Timestamp::new(2023, 1, 1, 23, 59, 58, 1_500_000_000).is_none());
    assert!(Timestamp::new(262143, 1, 1, 0, 0, 0, 0).is_none());
    for (y, m, d) in [(2024, 2, 29), (2023, 2, 29), (-4, 2, 29), (-1, 2, 29), (262142, 12, 31)] {
        assert_eq!(
            Timestamp::new(y, m, d, 0, 0, 0, 0).is_some(),
            chrono::NaiveDate::from_ymd_opt(y, m, d).is_some()
        );
    }
}

#[test]
fn default_timestamp_is_the_epoch() {
    let t = Timestamp::default();
    assert_eq!(t, Timestamp::new(1970, 1, 1, 0, 0, 0, 0).unwrap());
    assert_eq!(t.display(), chrono::NaiveDateTime::default().to_string());
}

fn at(secs: i64) -> UnixTime {
    UnixTime { secs, nanos: 0 }
}

#[test]
fn plenty_of_requests_left_waits_the_default() {
    let now = at(1_670_788_800);
    let d = next_sleep_duration(Some("5"), Some("2022-12-11T20:30:00Z"), now);
    assert_eq!(d, (SleepDuration { secs: 60, nanos: 0 }, Ok(())));
    let d = next_sleep_duration(Some("3"), None, now);
    assert_eq!(d, (SleepDuration { secs: 60, nanos: 0 }, Ok(())));
}

#[test]
fn few_requests_left_waits_for_the_reset() {
    // 2022-12-11T20:00:00.821685Z
    let now = UnixTime { secs: 1_670_788_800, nanos: 821_685_000 };
    let d = next_sleep_duration(Some("2"), Some("2022-12-11T20:30:00.821685Z"), now);
    assert_eq!(d, (SleepDuration { secs: 1800 + 10, nanos: 0 }, Ok(())));
    let d = next_sleep_duration(Some("0"), Some("2022-12-11T21:00:00.821685+01:00"), now);
    assert_eq!(d, (SleepDuration { secs: 10, nanos: 0 }, Ok(())));
}

#[test]
fn unusable_rate_limit_headers_wait_the_default() {
    let now = at(1_670_788_800);
    let default = SleepDuration { secs: 60, nanos: 0 };
    assert_eq!(
        next_sleep_duration(None, Some("2022-12-11T20:30:00Z"), now),
        (default, Err(RateLimitError::MissingRemaining))
    );
    assert_eq!(
        next_sleep_duration(Some("x"), Some("2022-12-11T20:30:00Z"), now),
        (default, Err(RateLimitError::UnreadableRemaining))
    );
    assert_eq!(next_sleep_duration(Some("1"), None, now), (default, Err(RateLimitError::MissingReset)));
    assert_eq!(
        next_sleep_duration(Some("1"), Some("not a date"), now),
        (default, Err(RateLimitError::UnreadableReset))
    );
    // a reset that has passed
    assert_eq!(
        next_sleep_duration(Some("1"), Some("2022-12-11T19:00:00Z"), now),
        (default, Err(RateLimitError::ResetPassed))
    );
}

#[test]
fn timestamps_display_fractions_leap_seconds_and_far_years() {
    let cases = [
        ((2020, 1, 1, 0, 0, 0, 123_456_000), "2020-01-01 00:00:00.123456"),
        ((2020, 1, 1, 0, 0, 0, 1_500), "2020-01-01 00:00:00.000001500"),
        ((2016, 12, 31, 23, 59, 59, 1_500_000_000), "2016-12-31 23:59:60.500"),
        ((2016, 12, 31, 23, 59, 59, 1_000_000_000), "2016-12-31 23:59:60"),
        ((-1, 3, 4, 5, 6, 7, 0), "-0001-03-04 05:06:07"),
        ((10000, 1, 1, 0, 0, 0, 0), "+10000-01-01 00:00:00"),
        ((-262143, 1, 1, 0, 0, 0, 0), "-262143-01-01 00:00:00"),
    ];
    for ((y, mo, d, h, mi, s, ns), text) in cases {
        let t = Timestamp::new(y, mo, d, h, mi, s, ns).unwrap();
        assert_eq!(t.display(), text);
        let c = chrono::NaiveDate::from_ymd_opt(y, mo, d).unwrap().and_hms_nano_opt(h, mi, s, ns).unwrap();
        assert_eq!(t.display(), c.to_string());
    }
}

#[test]
fn durations_between_rfc3339_dates() {
    assert_eq!(rfc3339_duration("2022-12-11T20:00:00.821685Z", "2022-12-11T20:30:00.821685Z"), Ok((1800, 0)));
    assert_eq!(rfc3339_duration("2022-12-11T20:00:00Z", "2022-12-11T20:00:01.5+00:00"), Ok((1, 500_000_000)));
    assert_eq!(rfc3339_duration("2022-12-11T21:00:00+01:00", "2022-12-11T20:00:00Z"), Ok((0, 0)));
    assert_eq!(rfc3339_duration("yesterday", "2022-12-11T20:00:00Z"), Err(DurationError::UnreadableEarlier));
    assert_eq!(rfc3339_duration("2022-12-11T20:00:00Z", "tomorrow"), Err(DurationError::UnreadableLater));
    assert_eq!(rfc3339_duration("2022-12-11T20:30:00Z", "2022-12-11T20:00:00Z"), Err(DurationError::Negative));
}
