//! Calendar date-times (the values `chrono::NaiveDateTime` holds) and instants.
use vstd::prelude::*;
use crate::text::{decimal_string, digit_char};
use chrono::{Datelike, Timelike};

verus! {

/// A Gregorian leap year.
pub open spec fn is_leap_year(y: int) -> bool {
    y % 4 == 0 && (y % 100 != 0 || y % 400 == 0)
}

/// The number of days of month `m` (1 to 12) in year `y`.
pub open spec fn days_in_month(y: int, m: int) -> int {
    if m == 2 {
        if is_leap_year(y) { 29 } else { 28 }
    } else if m == 4 || m == 6 || m == 9 || m == 11 {
        30
    } else {
        31
    }
}

/// The date-times that `chrono::NaiveDateTime` can represent: a calendar
/// date in its year range and a time of day, where a nanosecond count of a
/// second or more marks a leap second and is allowed only at second 59.
pub open spec fn valid_date_time(y: int, mo: int, d: int, h: int, mi: int, s: int, ns: int) -> bool {
    &&& -262143 <= y <= 262142
    &&& 1 <= mo <= 12
    &&& 1 <= d <= days_in_month(y, mo)
    &&& 0 <= h < 24
    &&& 0 <= mi < 60
    &&& 0 <= s < 60
    &&& 0 <= ns < 2_000_000_000
    &&& (ns >= 1_000_000_000 ==> s == 59)
}

/// A calendar date and time of day without a time zone.
#[derive(PartialEq, Eq, Structural, Clone, Copy, Debug)]
pub struct Timestamp {
    year: i32,
    month: u32,
    day: u32,
    hour: u32,
    minute: u32,
    second: u32,
    nanosecond: u32,
}

/// The fields of the `NaiveDateTime` that chrono's
/// `NaiveDateTime::parse_from_str` reads from `s` with format `fmt`, in the
/// order year, month, day, hour, minute, second, nanosecond; `None` where it
/// fails.
pub uninterp spec fn chrono_naive_parse(s: Seq<char>, fmt: Seq<char>) -> Option<
    (i32, u32, u32, u32, u32, u32, u32),
>;

/// Two decimal digits of `n` (0 to 99).
pub open spec fn two_digits(n: int) -> Seq<char> {
    seq![digit_char((n / 10) as nat), digit_char((n % 10) as nat)]
}

/// `n` in decimal, with zeros in front up to `width` digits.
pub open spec fn zero_padded(n: nat, width: nat) -> Seq<char> {
    let digits = decimal_string(n);
    if digits.len() >= width {
        digits
    } else {
        Seq::new((width - digits.len()) as nat, |i: int| '0') + digits
    }
}

/// The year as chrono writes it: four digits for years 0 to 9999, else a
/// sign and at least four digits.
pub open spec fn year_text(y: int) -> Seq<char> {
    if 0 <= y <= 9999 {
        two_digits(y / 100) + two_digits(y % 100)
    } else if y < 0 {
        seq!['-'] + zero_padded((-y) as nat, 4)
    } else {
        seq!['+'] + zero_padded(y as nat, 4)
    }
}

/// The fraction of a second as chrono writes it: nothing for none, else a
/// dot and three, six or nine digits, the fewest that hold it.
pub open spec fn fraction_text(nano: int) -> Seq<char> {
    if nano == 0 {
        seq![]
    } else if nano % 1_000_000 == 0 {
        seq!['.'] + zero_padded((nano / 1_000_000) as nat, 3)
    } else if nano % 1_000 == 0 {
        seq!['.'] + zero_padded((nano / 1_000) as nat, 6)
    } else {
        seq!['.'] + zero_padded(nano as nat, 9)
    }
}

/// `YYYY-MM-DD HH:MM:SS` and the fraction of a second, as chrono's
/// `Display` for `NaiveDateTime` writes them; a leap second shows as
/// second 60.
pub open spec fn date_time_text(y: int, mo: int, d: int, h: int, mi: int, s: int, ns: int) -> Seq<
    char,
> {
    let sec = if ns >= 1_000_000_000 { s + 1 } else { s };
    let nano = if ns >= 1_000_000_000 { ns - 1_000_000_000 } else { ns };
    year_text(y) + seq!['-'] + two_digits(mo) + seq!['-'] + two_digits(d) + seq![' '] + two_digits(h)
        + seq![':'] + two_digits(mi) + seq![':'] + two_digits(sec) + fraction_text(nano)
}

impl Timestamp {
    #[verifier::type_invariant]
    pub open spec fn valid(self) -> bool {
        valid_date_time(
            self.spec_year() as int,
            self.spec_month() as int,
            self.spec_day() as int,
            self.spec_hour() as int,
            self.spec_minute() as int,
            self.spec_second() as int,
            self.spec_nanosecond() as int,
        )
    }

    pub closed spec fn spec_year(self) -> i32 {
        self.year
    }

    pub closed spec fn spec_month(self) -> u32 {
        self.month
    }

    pub closed spec fn spec_day(self) -> u32 {
        self.day
    }

    pub closed spec fn spec_hour(self) -> u32 {
        self.hour
    }

    pub closed spec fn spec_minute(self) -> u32 {
        self.minute
    }

    pub closed spec fn spec_second(self) -> u32 {
        self.second
    }

    pub closed spec fn spec_nanosecond(self) -> u32 {
        self.nanosecond
    }

    /// The fields of the timestamp are those given.
    pub open spec fn has_fields(
        self,
        year: i32,
        month: u32,
        day: u32,
        hour: u32,
        minute: u32,
        second: u32,
        nanosecond: u32,
    ) -> bool {
        &&& self.spec_year() == year
        &&& self.spec_month() == month
        &&& self.spec_day() == day
        &&& self.spec_hour() == hour
        &&& self.spec_minute() == minute
        &&& self.spec_second() == second
        &&& self.spec_nanosecond() == nanosecond
    }

    /// The text `Display` gives.
    pub open spec fn display_text(self) -> Seq<char> {
        date_time_text(
            self.spec_year() as int,
            self.spec_month() as int,
            self.spec_day() as int,
            self.spec_hour() as int,
            self.spec_minute() as int,
            self.spec_second() as int,
            self.spec_nanosecond() as int,
        )
    }

    /// The date-time with the given fields, where chrono accepts them
    /// (`NaiveDate::from_ymd_opt` and `NaiveDate::and_hms_nano_opt`).
    pub fn new(
        year: i32,
        month: u32,
        day: u32,
        hour: u32,
        minute: u32,
        second: u32,
        nanosecond: u32,
    ) -> (r: Option<Timestamp>)
        ensures
            r is Some <==> valid_date_time(
                year as int,
                month as int,
                day as int,
                hour as int,
                minute as int,
                second as int,
                nanosecond as int,
            ),
            r matches Some(t) ==> t.has_fields(year, month, day, hour, minute, second, nanosecond),
    {
        if year < -262143 || year > 262142 || month < 1 || month > 12 || day < 1 {
            return None;
        }
        let leap = year % 4 == 0 && (year % 100 != 0 || year % 400 == 0);
        let days: u32 = if month == 2 {
            if leap { 29 } else { 28 }
        } else if month == 4 || month == 6 || month == 9 || month == 11 {
            30
        } else {
            31
        };
        assert(days == days_in_month(year as int, month as int));
        if day > days || hour >= 24 || minute >= 60 || second >= 60 || nanosecond >= 2_000_000_000 {
            return None;
        }
        if nanosecond >= 1_000_000_000 && second != 59 {
            return None;
        }
        Some(Timestamp { year, month, day, hour, minute, second, nanosecond })
    }

    /// 1970-01-01 00:00:00, the `Default` of `NaiveDateTime`.
    pub fn epoch() -> (r: Timestamp)
        ensures
            r.has_fields(1970, 1, 1, 0, 0, 0, 0),
    {
        Timestamp { year: 1970, month: 1, day: 1, hour: 0, minute: 0, second: 0, nanosecond: 0 }
    }

    pub fn year(&self) -> (r: i32)
        ensures
            r == self.spec_year(),
    {
        self.year
    }

    pub fn month(&self) -> (r: u32)
        ensures
            r == self.spec_month(),
    {
        self.month
    }

    pub fn day(&self) -> (r: u32)
        ensures
            r == self.spec_day(),
    {
        self.day
    }

    pub fn hour(&self) -> (r: u32)
        ensures
            r == self.spec_hour(),
    {
        self.hour
    }

    pub fn minute(&self) -> (r: u32)
        ensures
            r == self.spec_minute(),
    {
        self.minute
    }

    pub fn second(&self) -> (r: u32)
        ensures
            r == self.spec_second(),
    {
        self.second
    }

    pub fn nanosecond(&self) -> (r: u32)
        ensures
            r == self.spec_nanosecond(),
    {
        self.nanosecond
    }

    /// The text chrono's `Display` writes for this date-time.
    pub fn display(&self) -> (r: String)
        ensures
            r@ == self.display_text(),
    {
        proof {
            use_type_invariant(self);
        }
        naive_display(
            self.year,
            self.month,
            self.day,
            self.hour,
            self.minute,
            self.second,
            self.nanosecond,
        )
    }
}

impl Default for Timestamp {
    fn default() -> (r: Timestamp)
        ensures
            r.has_fields(1970, 1, 1, 0, 0, 0, 0),
    {
        Timestamp::epoch()
    }
}

/// Trusted: builds a `chrono::NaiveDateTime` from its fields
/// (`NaiveDate::from_ymd_opt`, `NaiveDate::and_hms_nano_opt`) and writes it
/// with its `Display` impl. The contract states the text that chrono's
/// source writes (`Display` for `NaiveDate` and `NaiveTime`): the date with
/// a four-digit or signed year, a space, the time, and the fraction of a
/// second in three, six or nine digits where there is one.
#[verifier::external_body]
fn naive_display(
    year: i32,
    month: u32,
    day: u32,
    hour: u32,
    minute: u32,
    second: u32,
    nanosecond: u32,
) -> (r: String)
    requires
        valid_date_time(
            year as int,
            month as int,
            day as int,
            hour as int,
            minute as int,
            second as int,
            nanosecond as int,
        ),
    ensures
        r@ == date_time_text(
            year as int,
            month as int,
            day as int,
            hour as int,
            minute as int,
            second as int,
            nanosecond as int,
        ),
{
    let date = chrono::NaiveDate::from_ymd_opt(year, month, day).unwrap();
    date.and_hms_nano_opt(hour, minute, second, nanosecond).unwrap().to_string()
}

/// Trusted: `chrono::NaiveDateTime::parse_from_str(s, fmt)`, with the error
/// mapped to `None` and the result taken apart into its fields. The
/// contract claims the result is a function of `s` and `fmt`, and that a
/// parsed value is a date-time chrono can represent.
#[verifier::external_body]
fn naive_parse(s: &str, fmt: &str) -> (r: Option<(i32, u32, u32, u32, u32, u32, u32)>)
    ensures
        r == chrono_naive_parse(s@, fmt@),
        r matches Some((y, mo, d, h, mi, sec, ns)) ==> valid_date_time(
            y as int,
            mo as int,
            d as int,
            h as int,
            mi as int,
            sec as int,
            ns as int,
        ),
{
    let dt = chrono::NaiveDateTime::parse_from_str(s, fmt).ok()?;
    Some((dt.year(), dt.month(), dt.day(), dt.hour(), dt.minute(), dt.second(), dt.nanosecond()))
}

/// The format of `created_at` in a Twitter archive, such as
/// `Wed Oct 10 20:19:24 +0000 2018`.
pub fn twitter_date_format() -> (r: &'static str)
    ensures
        r@ == "%a %b %d %T %z %Y"@,
{
    "%a %b %d %T %z %Y"
}

/// Reads a Twitter `created_at` date; the offset is read and not applied.
pub fn parse_twitter_date(s: &str) -> (r: Option<Timestamp>)
    ensures
        match chrono_naive_parse(s@, "%a %b %d %T %z %Y"@) {
            Some((y, mo, d, h, mi, sec, ns)) => r matches Some(t) && t.has_fields(y, mo, d, h, mi, sec, ns),
            None => r is None,
        },
{
    match naive_parse(s, twitter_date_format()) {
        Some((y, mo, d, h, mi, sec, ns)) => Timestamp::new(y, mo, d, h, mi, sec, ns),
        None => None,
    }
}

/// An instant as seconds since the Unix epoch and a nanosecond part.
#[derive(PartialEq, Eq, Structural, Clone, Copy, Debug)]
pub struct UnixTime {
    pub secs: i64,
    pub nanos: u32,
}

/// The instant that chrono's `DateTime::parse_from_rfc3339` reads from `s`,
/// as (`timestamp()`, `timestamp_subsec_nanos()`); `None` where it fails.
pub uninterp spec fn chrono_rfc3339_instant(s: Seq<char>) -> Option<(i64, u32)>;

/// Trusted: `chrono::DateTime::<FixedOffset>::parse_from_rfc3339(s)`, taken
/// apart into seconds since the epoch and the nanosecond part. The contract
/// claims the result is a function of `s`; chrono keeps the nanosecond part
/// below two seconds (one more for a leap second).
#[verifier::external_body]
pub(crate) fn parse_rfc3339(s: &str) -> (r: Option<UnixTime>)
    ensures
        match chrono_rfc3339_instant(s@) {
            Some((secs, nanos)) => r == Some(UnixTime { secs, nanos }),
            None => r is None,
        },
        r matches Some(t) ==> t.nanos < 2_000_000_000,
{
    let t = chrono::DateTime::parse_from_rfc3339(s).ok()?;
    Some(UnixTime { secs: t.timestamp(), nanos: t.timestamp_subsec_nanos() })
}

/// The `std::time::Duration` (seconds, nanoseconds) that chrono gives for
/// `later.signed_duration_since(earlier).to_std()`, both instants built with
/// `DateTime::from_timestamp`; `None` where an instant is out of chrono's
/// range or the duration is negative.
pub uninterp spec fn chrono_std_duration_between(
    later_secs: i64,
    later_nanos: u32,
    earlier_secs: i64,
    earlier_nanos: u32,
) -> Option<(u64, u32)>;

/// Why no duration between two RFC 3339 dates could be had.
#[derive(Debug, PartialEq, Eq, Structural, Clone, Copy)]
pub enum DurationError {
    /// The earlier date cannot be read.
    UnreadableEarlier,
    /// The later date cannot be read.
    UnreadableLater,
    /// chrono gives no `std::time::Duration` for the difference: the later
    /// date comes first.
    Negative,
}

/// The time from the RFC 3339 date `earlier` to the RFC 3339 date `later`,
/// as seconds and nanoseconds.
pub fn rfc3339_duration(earlier: &str, later: &str) -> (r: Result<(u64, u32), DurationError>)
    ensures
        match (chrono_rfc3339_instant(earlier@), chrono_rfc3339_instant(later@)) {
            (None, _) => r == Err::<(u64, u32), DurationError>(DurationError::UnreadableEarlier),
            (Some(_), None) => r == Err::<(u64, u32), DurationError>(DurationError::UnreadableLater),
            (Some((es, en)), Some((ls, ln))) => match chrono_std_duration_between(ls, ln, es, en) {
                Some(d) => r == Ok::<(u64, u32), DurationError>(d),
                None => r == Err::<(u64, u32), DurationError>(DurationError::Negative),
            },
        },
        rfc3339_instant(earlier@) matches Some(e) ==> (rfc3339_instant(later@) matches Some(l) ==> (
        plain_instant(e) && plain_instant(l) ==> r == match plain_duration(l, e) {
            Some(d) => Ok::<(u64, u32), DurationError>(d),
            None => Err::<(u64, u32), DurationError>(DurationError::Negative),
        })),
{
    let earlier = match parse_rfc3339(earlier) {
        Some(t) => t,
        None => return Err(DurationError::UnreadableEarlier),
    };
    let later = match parse_rfc3339(later) {
        Some(t) => t,
        None => return Err(DurationError::UnreadableLater),
    };
    match std_duration_between(later, earlier) {
        Some(d) => Ok(d),
        None => Err(DurationError::Negative),
    }
}

/// The instant lies well inside chrono's range of years and is no leap
/// second.
pub open spec fn plain_instant(t: UnixTime) -> bool {
    -8_000_000_000_000 <= t.secs <= 8_000_000_000_000 && t.nanos < 1_000_000_000
}

/// The nanoseconds from `earlier` to `later`.
pub open spec fn nanos_between(later: UnixTime, earlier: UnixTime) -> int {
    (later.secs - earlier.secs) * 1_000_000_000 + later.nanos - earlier.nanos
}

/// The time from `earlier` to `later` as seconds and nanoseconds, where
/// `later` does not come first.
pub open spec fn plain_duration(later: UnixTime, earlier: UnixTime) -> Option<(u64, u32)> {
    let total = nanos_between(later, earlier);
    if total < 0 {
        None
    } else {
        Some(((total / 1_000_000_000) as u64, (total % 1_000_000_000) as u32))
    }
}

/// The instant that chrono reads from the RFC 3339 date `s`.
pub open spec fn rfc3339_instant(s: Seq<char>) -> Option<UnixTime> {
    match chrono_rfc3339_instant(s) {
        Some((secs, nanos)) => Some(UnixTime { secs, nanos }),
        None => None,
    }
}

/// Trusted: chrono's `DateTime::from_timestamp` for both instants, then
/// `signed_duration_since` and `TimeDelta::to_std`. The contract claims the
/// result is a function of the two instants; chrono's `TimeDelta` holds its
/// seconds in an `i64` and `to_std` returns them with a nanosecond part
/// below one second. For instants well inside chrono's range that are no
/// leap seconds, chrono's source subtracts seconds and nanoseconds, and
/// `to_std` refuses a negative difference: the contract states that result.
/// Leap seconds and instants near the ends of chrono's range are left to
/// the name.
#[verifier::external_body]
pub(crate) fn std_duration_between(later: UnixTime, earlier: UnixTime) -> (r: Option<(u64, u32)>)
    ensures
        r == chrono_std_duration_between(later.secs, later.nanos, earlier.secs, earlier.nanos),
        r matches Some((secs, nanos)) ==> secs <= i64::MAX && nanos < 1_000_000_000,
        plain_instant(later) && plain_instant(earlier) ==> r == plain_duration(later, earlier),
{
    let later = chrono::DateTime::from_timestamp(later.secs, later.nanos)?;
    let earlier = chrono::DateTime::from_timestamp(earlier.secs, earlier.nanos)?;
    let d = later.signed_duration_since(earlier).to_std().ok()?;
    Some((d.as_secs(), d.subsec_nanos()))
}

} // verus!
