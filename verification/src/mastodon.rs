//! Uploads to a Mastodon server: reading its replies and pacing requests.
use vstd::prelude::*;
use crate::text::{
    decimal_string, lemma_parse_u32_of_decimal, parse_i64, parse_i64_spec, parse_u32, parse_u32_spec,
};
use crate::time::{
    chrono_rfc3339_instant, chrono_std_duration_between, parse_rfc3339, plain_duration, plain_instant,
    rfc3339_instant, std_duration_between, UnixTime,
};

verus! {

/// How long to wait before the next request.
#[derive(PartialEq, Eq, Structural, Clone, Copy, Debug)]
pub struct SleepDuration {
    pub secs: u64,
    pub nanos: u32,
}

/// The reply of the server to a media upload.
#[derive(Debug)]
pub struct MediaResponse {
    pub id: String,
}

/// The id in a reply is not a number.
#[derive(Debug, PartialEq, Eq, Structural)]
pub enum MediaIdError {
    NotANumber,
}

impl MediaResponse {
    /// The id of the uploaded media.
    pub fn id(&self) -> (r: Result<i64, MediaIdError>)
        ensures
            match parse_i64_spec(self.id@) {
                Some(v) => r == Ok::<i64, MediaIdError>(v),
                None => r == Err::<i64, MediaIdError>(MediaIdError::NotANumber),
            },
    {
        match parse_i64(self.id.as_str()) {
            Some(v) => Ok(v),
            None => Err(MediaIdError::NotANumber),
        }
    }
}

/// The wait between requests when the server sets no tighter limit.
pub const DEFAULT_SLEEP_SECS: u64 = 60;

/// What is added to the wait until the rate limit resets.
pub const RESET_MARGIN_SECS: u64 = 10;

/// Below this many requests left, wait until the limit resets.
pub const LOW_REMAINING: u32 = 3;

/// The characters of an optional header value.
pub open spec fn header_view(h: Option<&str>) -> Option<Seq<char>> {
    match h {
        Some(s) => Some(s@),
        None => None,
    }
}

/// The wait after a reply with the given `x-ratelimit-remaining` and
/// `x-ratelimit-reset` headers, received at `now`: the default wait, or,
/// with fewer than three requests left, the time until the reset and a
/// margin; the default wherever a header is missing or unreadable or the
/// reset has passed.
pub open spec fn next_sleep_spec(
    remaining: Option<Seq<char>>,
    reset: Option<Seq<char>>,
    now: UnixTime,
) -> SleepDuration {
    let default = SleepDuration { secs: DEFAULT_SLEEP_SECS, nanos: 0 };
    match remaining {
        None => default,
        Some(r) => match parse_u32_spec(r) {
            None => default,
            Some(n) => if n >= LOW_REMAINING {
                default
            } else {
                match reset {
                    None => default,
                    Some(s) => match chrono_rfc3339_instant(s) {
                        None => default,
                        Some((secs, nanos)) => match chrono_std_duration_between(
                            secs,
                            nanos,
                            now.secs,
                            now.nanos,
                        ) {
                            None => default,
                            Some((ds, dn)) => SleepDuration {
                                secs: (ds + RESET_MARGIN_SECS) as u64,
                                nanos: dn,
                            },
                        },
                    },
                }
            },
        },
    }
}

/// The instant of the reset, where fewer than three requests are left and
/// both headers can be read.
pub open spec fn low_remaining_reset(remaining: Option<Seq<char>>, reset: Option<Seq<char>>) -> Option<
    UnixTime,
> {
    match (remaining, reset) {
        (Some(r), Some(s)) => match (parse_u32_spec(r), rfc3339_instant(s)) {
            (Some(n), Some(t)) => if n < LOW_REMAINING {
                Some(t)
            } else {
                None
            },
            _ => None,
        },
        _ => None,
    }
}

/// Waiting until `reset` from `now`, and the margin; the default wait where
/// `reset` has passed.
pub open spec fn wait_until(reset: UnixTime, now: UnixTime) -> SleepDuration {
    match plain_duration(reset, now) {
        Some((secs, nanos)) => SleepDuration { secs: (secs + RESET_MARGIN_SECS) as u64, nanos },
        None => SleepDuration { secs: DEFAULT_SLEEP_SECS, nanos: 0 },
    }
}

/// Why the rate-limit headers of a reply could not be used; the wait is
/// then the default one.
#[derive(Debug, PartialEq, Eq, Structural, Clone, Copy)]
pub enum RateLimitError {
    /// There is no readable `x-ratelimit-remaining` header.
    MissingRemaining,
    /// `x-ratelimit-remaining` is not a `u32`.
    UnreadableRemaining,
    /// Fewer than three requests are left and there is no readable
    /// `x-ratelimit-reset` header.
    MissingReset,
    /// `x-ratelimit-reset` is not an RFC 3339 date.
    UnreadableReset,
    /// chrono gives no `std::time::Duration` until the reset: it has passed.
    ResetPassed,
}

/// Whether the rate-limit headers could be used, and if not, why.
pub open spec fn rate_limit_outcome(
    remaining: Option<Seq<char>>,
    reset: Option<Seq<char>>,
    now: UnixTime,
) -> Result<(), RateLimitError> {
    match remaining {
        None => Err(RateLimitError::MissingRemaining),
        Some(r) => match parse_u32_spec(r) {
            None => Err(RateLimitError::UnreadableRemaining),
            Some(n) => if n >= LOW_REMAINING {
                Ok(())
            } else {
                match reset {
                    None => Err(RateLimitError::MissingReset),
                    Some(s) => match chrono_rfc3339_instant(s) {
                        None => Err(RateLimitError::UnreadableReset),
                        Some((secs, nanos)) => match chrono_std_duration_between(
                            secs,
                            nanos,
                            now.secs,
                            now.nanos,
                        ) {
                            None => Err(RateLimitError::ResetPassed),
                            Some(_) => Ok(()),
                        },
                    },
                }
            },
        },
    }
}

/// The wait before the next request, from the rate-limit headers of the
/// last reply and the time it came, and whether the headers could be used:
/// where they could not, the wait is the default one and the error says why.
pub fn next_sleep_duration(remaining: Option<&str>, reset: Option<&str>, now: UnixTime) -> (r: (
    SleepDuration,
    Result<(), RateLimitError>,
))
    ensures
        r.0 == next_sleep_spec(header_view(remaining), header_view(reset), now),
        r.1 == rate_limit_outcome(header_view(remaining), header_view(reset), now),
        r.1 is Err ==> r.0 == (SleepDuration { secs: DEFAULT_SLEEP_SECS, nanos: 0 }),
        low_remaining_reset(header_view(remaining), header_view(reset)) matches Some(t) ==> (
        plain_instant(t) && plain_instant(now) ==> r.0 == wait_until(t, now)),
{
    let default = SleepDuration { secs: DEFAULT_SLEEP_SECS, nanos: 0 };
    let remaining = match remaining {
        Some(r) => match parse_u32(r) {
            Some(n) => n,
            None => return (default, Err(RateLimitError::UnreadableRemaining)),
        },
        None => return (default, Err(RateLimitError::MissingRemaining)),
    };
    if remaining >= LOW_REMAINING {
        return (default, Ok(()));
    }
    let reset_at = match reset {
        Some(s) => match parse_rfc3339(s) {
            Some(t) => t,
            None => return (default, Err(RateLimitError::UnreadableReset)),
        },
        None => return (default, Err(RateLimitError::MissingReset)),
    };
    match std_duration_between(reset_at, now) {
        Some((secs, nanos)) => (SleepDuration { secs: secs + RESET_MARGIN_SECS, nanos }, Ok(())),
        None => (default, Err(RateLimitError::ResetPassed)),
    }
}

/// With three or more requests left, the wait is the default 60 s whatever
/// the reset header says, and the headers count as usable; this holds of a
/// count written in decimal too.
pub proof fn lemma_many_requests_left_wait_the_default(
    remaining: Seq<char>,
    n: u32,
    reset: Option<Seq<char>>,
    now: UnixTime,
)
    requires
        parse_u32_spec(remaining) == Some(n),
        n >= 3,
    ensures
        next_sleep_spec(Some(remaining), reset, now) == (SleepDuration { secs: 60, nanos: 0 }),
        rate_limit_outcome(Some(remaining), reset, now) == Ok::<(), RateLimitError>(()),
        next_sleep_spec(Some(decimal_string(n as nat)), reset, now) == (SleepDuration {
            secs: 60,
            nanos: 0,
        }),
{
    lemma_parse_u32_of_decimal(n);
}

/// Without a readable count of requests left, the wait is the default 60 s
/// and the headers are reported unusable.
pub proof fn lemma_unreadable_count_waits_the_default(
    remaining: Option<Seq<char>>,
    reset: Option<Seq<char>>,
    now: UnixTime,
)
    requires
        remaining matches Some(r) ==> parse_u32_spec(r) is None,
    ensures
        next_sleep_spec(remaining, reset, now) == (SleepDuration { secs: 60, nanos: 0 }),
        rate_limit_outcome(remaining, reset, now) is Err,
{
}

} // verus!
