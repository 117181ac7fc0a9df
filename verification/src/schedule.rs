//! From the duration argument to the span that the run holds for: the choice
//! between the two grammars, and the time left until an absolute timestamp.

use vstd::prelude::*;
use vstd::string::StrSliceExecFns;
use vstd::utf8::encode_utf8;
use crate::civil::{
    local_now, parse_civil_time, parsed_civil_time, seconds_between, whole_seconds_ahead,
    whole_seconds_between, CivilTime,
};
use crate::duration::{duration_value, no_limit, parse_duration, parse_outcome, DurationSpec};
use crate::error::AwakeError;
use crate::grammar::lemma_stray_character;

verus! {

/// The format of an absolute timestamp, such as `2030-01-01T00:00:00`.
pub const DATETIME_FORMAT: &'static str = "%Y-%m-%dT%H:%M:%S";

/// The length of an absolute timestamp, in bytes.
pub const DATETIME_LENGTH: usize = 19;

/// Whether `text` is taken for an absolute timestamp: 19 bytes long, which
/// for a timestamp's characters is 19 characters, with `-` as its fifth
/// character. The text is judged by its shape alone; whether it is a
/// timestamp is for the reading to say.
pub open spec fn absolute_form(text: Seq<char>) -> bool {
    &&& encode_utf8(text).len() == DATETIME_LENGTH
    &&& text.len() > 4
    &&& text[4] == '-'
}

/// Tells the two grammars apart by the shape of the text.
pub fn is_absolute_form(text: &str) -> (absolute: bool)
    ensures
        absolute == absolute_form(text@),
{
    text.as_bytes().len() == DATETIME_LENGTH && text.unicode_len() > 4 && text.get_char(4) == '-'
}

/// The seconds left of a span of `delta` seconds: none where it is over.
pub open spec fn remaining(delta: i64) -> u64 {
    if delta > 0 {
        delta as u64
    } else {
        0
    }
}

/// Cuts a span that may be negative down to the seconds that are left of it.
pub fn remaining_seconds(delta: i64) -> (seconds: u64)
    ensures
        seconds == remaining(delta),
{
    if delta > 0 {
        delta as u64
    } else {
        0
    }
}

/// The seconds from `now` until the timestamp that `text` spells, or the
/// parse error where it spells none.
pub open spec fn until(text: Seq<char>, now: CivilTime) -> Result<u64, AwakeError> {
    match parsed_civil_time(text, DATETIME_FORMAT@) {
        Some(target) => Ok(remaining(seconds_between(target, now))),
        None => Err(AwakeError::ParseError),
    }
}

/// Reads an absolute timestamp and counts the seconds from `now` until it.
///
/// A timestamp in the past, or less than a second ahead, gives zero. Where
/// neither instant is written as a leap second, the count is the difference
/// of the two in whole seconds.
pub fn seconds_until(text: &str, now: &CivilTime) -> (r: Result<u64, AwakeError>)
    ensures
        r == until(text@, *now),
        parsed_civil_time(text@, DATETIME_FORMAT@) matches Some(target) ==> {
            !target.in_leap_second() && !now.in_leap_second() ==> {
                r == Ok::<u64, AwakeError>(whole_seconds_ahead(target, *now) as u64)
            }
        },
{
    proof {
        use_type_invariant(now);
    }
    match parse_civil_time(text, DATETIME_FORMAT) {
        Ok(target) => Ok(remaining_seconds(whole_seconds_between(&target, now))),
        Err(_) => Err(AwakeError::ParseError),
    }
}

/// The span that the argument asks for, read at the instant `now`.
///
/// No argument asks for a run without end. A text in the shape of a
/// timestamp asks for the seconds until that instant. Any other text is a
/// relative duration. A text that its grammar refuses is a parse error.
pub open spec fn resolution(
    argument: Option<Seq<char>>,
    now: CivilTime,
) -> Result<DurationSpec, AwakeError> {
    match argument {
        None => Ok(DurationSpec::Unbounded),
        Some(text) => if absolute_form(text) {
            match until(text, now) {
                Ok(seconds) => Ok(DurationSpec::Seconds(seconds)),
                Err(error) => Err(error),
            }
        } else {
            match parse_outcome(text) {
                Ok(seconds) => Ok(DurationSpec::Seconds(seconds)),
                Err(_) => Err(AwakeError::ParseError),
            }
        },
    }
}

/// The text of an argument, where there is one.
pub open spec fn argument_text(argument: Option<&str>) -> Option<Seq<char>> {
    match argument {
        Some(text) => Some(text@),
        None => None,
    }
}

/// Resolves the duration argument at the instant `now`.
///
/// A timestamp ahead of `now` gives the whole seconds from `now` until it,
/// and a timestamp that is not ahead gives zero seconds, where neither
/// instant is written as a leap second.
pub fn resolve_duration_at(
    argument: Option<&str>,
    now: &CivilTime,
) -> (r: Result<DurationSpec, AwakeError>)
    ensures
        r == resolution(argument_text(argument), *now),
        argument matches Some(text) ==> {
            parsed_civil_time(text@, DATETIME_FORMAT@) matches Some(target) ==> {
                absolute_form(text@) && !target.in_leap_second() && !now.in_leap_second() ==> {
                    r == Ok::<DurationSpec, AwakeError>(
                        DurationSpec::Seconds(whole_seconds_ahead(target, *now) as u64),
                    )
                }
            }
        },
{
    match argument {
        None => Ok(DurationSpec::Unbounded),
        Some(text) => if is_absolute_form(text) {
            match seconds_until(text, now) {
                Ok(seconds) => Ok(DurationSpec::Seconds(seconds)),
                Err(error) => Err(error),
            }
        } else {
            match parse_duration(text) {
                Ok(seconds) => Ok(DurationSpec::Seconds(seconds)),
                Err(_) => Err(AwakeError::ParseError),
            }
        },
    }
}

/// Resolves the duration argument at the reading of the local clock.
///
/// The result is the resolution at some instant of the calendar. That
/// settles it where there is no argument or the argument is a relative
/// duration, which resolve alike at every instant. Of a timestamp it settles
/// whether the text is refused; the seconds are those until the timestamp
/// from wherever the clock stood.
pub fn resolve_duration(argument: Option<&str>) -> (r: Result<DurationSpec, AwakeError>)
    ensures
        exists|now: CivilTime|
            now.valid() && r == #[trigger] resolution(argument_text(argument), now),
{
    let now = local_now();
    resolve_duration_at(argument, &now)
}

/// No text in the shape of a timestamp is a relative duration: telling the
/// two grammars apart by the shape of the text turns no duration away.
pub proof fn lemma_timestamp_shape_is_no_duration(text: Seq<char>)
    requires
        absolute_form(text),
    ensures
        duration_value(text) is None,
{
    lemma_stray_character(text, 4, no_limit());
}

/// A timestamp that is read resolves to the seconds from `now` until it, and
/// to zero where it is not ahead of `now`.
pub proof fn lemma_timestamp_resolution(text: Seq<char>, target: CivilTime, now: CivilTime)
    requires
        absolute_form(text),
        parsed_civil_time(text, DATETIME_FORMAT@) == Some(target),
    ensures
        resolution(Some(text), now) == Ok::<DurationSpec, AwakeError>(
            DurationSpec::Seconds(
                if seconds_between(target, now) > 0 {
                    seconds_between(target, now) as u64
                } else {
                    0
                },
            ),
        ),
{
}

} // verus!
