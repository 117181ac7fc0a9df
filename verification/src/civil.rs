//! Civil time, as the calendar crate `chrono` reckons it: the reading of
//! timestamps, the local clock, and the distance between two instants.

use std::fmt::Write;
use vstd::prelude::*;

verus! {

/// The error with which `chrono` refuses a text.
#[verifier::external_type_specification]
#[verifier::external_body]
pub struct ExParseError(chrono::format::ParseError);

/// The seconds of the first instant of the calendar, `-262143-01-01T00:00:00`.
pub const MIN_SECONDS: i64 = -8_334_601_228_800;

/// The seconds of the last whole second of the calendar, `+262142-12-31T23:59:59`.
pub const MAX_SECONDS: i64 = 8_210_266_876_799;

/// The nanoseconds in a second.
pub const NANOS_PER_SECOND: u32 = 1_000_000_000;

/// The longest span of time that `chrono` reckons with, in whole seconds:
/// as many milliseconds as 64 bits count.
pub const MAX_SPAN_SECONDS: i64 = 9_223_372_036_854_775;

/// A date and time of day without a time zone, within the calendar.
///
/// The seconds count from `1970-01-01T00:00:00`, every day taken as 86 400
/// seconds long; the nanoseconds count on from the start of that second. A
/// leap second is the second 59 of a minute with a billion or more
/// nanoseconds.
#[derive(Clone, Copy, Debug, PartialEq, Eq, Structural)]
pub struct CivilTime {
    seconds: i64,
    nanos: u32,
}

/// Whether these seconds and nanoseconds are an instant of the calendar:
/// between its first and its last second, with less than a second of
/// nanoseconds, or less than two in the last second of a minute.
pub open spec fn in_calendar(seconds: int, nanos: int) -> bool {
    &&& MIN_SECONDS <= seconds <= MAX_SECONDS
    &&& 0 <= nanos
    &&& (nanos < NANOS_PER_SECOND || (nanos < 2 * NANOS_PER_SECOND && seconds % 60 == 59))
}

impl CivilTime {
    /// The seconds of the instant.
    pub closed spec fn seconds(self) -> int {
        self.seconds as int
    }

    /// The nanoseconds of the instant within its second.
    pub closed spec fn nanos(self) -> int {
        self.nanos as int
    }

    /// Whether the instant lies in the calendar. Every instant that the
    /// program holds does.
    pub open spec fn valid(self) -> bool {
        in_calendar(self.seconds(), self.nanos())
    }

    /// What every instant is held to: it lies in the calendar.
    #[verifier::type_invariant]
    pub open spec fn within_calendar(self) -> bool {
        self.valid()
    }

    /// The instant of these seconds and nanoseconds, where it lies in the calendar.
    pub fn new(seconds: i64, nanos: u32) -> (time: Option<CivilTime>)
        ensures
            time is Some <==> in_calendar(seconds as int, nanos as int),
            time matches Some(instant) ==> {
                &&& instant.seconds() == seconds
                &&& instant.nanos() == nanos
            },
    {
        if seconds < MIN_SECONDS || seconds > MAX_SECONDS {
            return None;
        }
        let last_of_minute = match seconds.checked_rem_euclid(60) {
            Some(second) => second == 59,
            None => false,
        };
        if nanos < NANOS_PER_SECOND || (nanos < 2 * NANOS_PER_SECOND && last_of_minute) {
            Some(CivilTime { seconds, nanos })
        } else {
            None
        }
    }

    /// The seconds of the instant.
    pub fn whole_seconds(&self) -> (seconds: i64)
        ensures
            seconds == self.seconds(),
            self.valid(),
    {
        proof {
            use_type_invariant(self);
        }
        self.seconds
    }

    /// The nanoseconds of the instant within its second.
    pub fn subsec_nanos(&self) -> (nanos: u32)
        ensures
            nanos == self.nanos(),
            self.valid(),
    {
        proof {
            use_type_invariant(self);
        }
        self.nanos
    }

    /// Whether the instant is written as a leap second.
    pub open spec fn in_leap_second(self) -> bool {
        self.nanos() >= NANOS_PER_SECOND
    }

    /// The nanoseconds from `1970-01-01T00:00:00` to the instant.
    pub open spec fn total_nanos(self) -> int {
        self.seconds() * NANOS_PER_SECOND + self.nanos()
    }
}

/// The whole seconds by which `later` is ahead of `earlier`, and zero where
/// it is not ahead, each instant taken by its nanoseconds.
pub open spec fn whole_seconds_ahead(later: CivilTime, earlier: CivilTime) -> int {
    if later.total_nanos() >= earlier.total_nanos() {
        (later.total_nanos() - earlier.total_nanos()) / (NANOS_PER_SECOND as int)
    } else {
        0
    }
}

/// The instant that `chrono` reads in `text` under the format `format`, or
/// `None` where it refuses the text.
pub uninterp spec fn parsed_civil_time(text: Seq<char>, format: Seq<char>) -> Option<CivilTime>;

/// The whole seconds that `chrono` counts from `earlier` to `later`; negative
/// where `later` comes first.
pub uninterp spec fn seconds_between(later: CivilTime, earlier: CivilTime) -> i64;

/// Reads a civil time with `chrono::NaiveDateTime::parse_from_str`, and
/// takes the instant apart with `chrono::DateTime::timestamp` and
/// `chrono::DateTime::timestamp_subsec_nanos`.
///
/// Trusted: the result is a function of the two texts alone, and an instant
/// that was read lies in the calendar, as every instant does that `chrono`
/// holds. Nothing is claimed of which texts are read, nor of the instant
/// that a text gives.
#[verifier::external_body]
pub(crate) fn parse_civil_time(
    text: &str,
    format: &str,
) -> (r: Result<CivilTime, chrono::format::ParseError>)
    ensures
        match r {
            Ok(time) => parsed_civil_time(text@, format@) == Some(time) && time.valid(),
            Err(_) => parsed_civil_time(text@, format@) is None,
        },
{
    let parsed = chrono::NaiveDateTime::parse_from_str(text, format)?.and_utc();
    Ok(CivilTime { seconds: parsed.timestamp(), nanos: parsed.timestamp_subsec_nanos() })
}

/// Reads the local clock with `chrono::Local::now` and
/// `chrono::DateTime::naive_local`.
///
/// Trusted: the instant lies in the calendar. It depends on the clock and on
/// the time zone of the machine, so nothing else is claimed of it. `chrono`
/// panics where the clock stands before 1970 or the zone cannot be told.
#[verifier::external_body]
pub(crate) fn local_now() -> (now: CivilTime)
    ensures
        now.valid(),
{
    let now = chrono::Local::now().naive_local().and_utc();
    CivilTime { seconds: now.timestamp(), nanos: now.timestamp_subsec_nanos() }
}

/// Counts the whole seconds from `earlier` to `later` with
/// `chrono::NaiveDateTime::signed_duration_since` and
/// `chrono::TimeDelta::num_seconds`, on instants put together by
/// `chrono::DateTime::from_timestamp`.
///
/// Trusted: the result is a function of the two instants alone. Where neither
/// is written as a leap second, `chrono` subtracts as if there were no leap
/// seconds: the result is the difference of the two in nanoseconds cut down
/// to whole seconds if `later` is not the earlier one, and it is not positive
/// if `later` is the earlier one. How `chrono` counts across a leap second is
/// not restated here. The instants are to lie in the calendar, which are
/// those that `from_timestamp` takes.
#[verifier::external_body]
pub(crate) fn whole_seconds_between(later: &CivilTime, earlier: &CivilTime) -> (seconds: i64)
    requires
        later.valid(),
        earlier.valid(),
    ensures
        seconds == seconds_between(*later, *earlier),
        !later.in_leap_second() && !earlier.in_leap_second() ==> {
            if later.total_nanos() >= earlier.total_nanos() {
                seconds == whole_seconds_ahead(*later, *earlier)
            } else {
                seconds <= 0
            }
        },
{
    let later = chrono::DateTime::from_timestamp(later.seconds, later.nanos).unwrap().naive_utc();
    let earlier =
        chrono::DateTime::from_timestamp(earlier.seconds, earlier.nanos).unwrap().naive_utc();
    later.signed_duration_since(earlier).num_seconds()
}

/// Formats the local time that lies `seconds` after the reading of the
/// clock, with `chrono::TimeDelta::try_seconds`, `chrono::Local::now`,
/// `chrono::DateTime::checked_add_signed` and `chrono::DateTime::format`.
///
/// Trusted: there is a text only for a span that `chrono` reckons with,
/// which `try_seconds` refuses beyond [`MAX_SPAN_SECONDS`] either way. The
/// text depends on the clock and on the time zone of the machine, so nothing
/// is claimed of it, nor that there is one: there is none where the end of
/// the span lies outside the calendar, or where `chrono` refuses the format.
#[verifier::external_body]
pub(crate) fn local_time_after(seconds: i64, format: &str) -> (text: Option<String>)
    ensures
        text is Some ==> -MAX_SPAN_SECONDS <= seconds <= MAX_SPAN_SECONDS,
{
    let span = chrono::TimeDelta::try_seconds(seconds)?;
    let end = chrono::Local::now().checked_add_signed(span)?;
    let mut text = String::new();
    write!(text, "{}", end.format(format)).ok()?;
    Some(text)
}

} // verus!
