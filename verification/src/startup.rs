//! What a start of the program is to do: which of its modes the flags ask
//! for, and how a relative duration is handed on as the timestamp of its end.

use vstd::prelude::*;
use crate::civil::{local_time_after, CivilTime, MAX_SPAN_SECONDS};
use crate::duration::{parse_duration, parse_outcome, DurationSpec};
use crate::error::AwakeError;
use crate::schedule::{
    absolute_form, argument_text, is_absolute_form, resolution, resolve_duration, DATETIME_FORMAT,
};

verus! {

/// The name that the program goes by where it was started without one.
pub const PROGRAM_NAME: &'static str = "awake";

/// The flag that asks for a run detached from the terminal.
pub const DAEMON_FLAG: &'static str = "--daemon";

/// What the flags of the command line ask for.
#[derive(Clone, Copy, Debug, PartialEq, Eq, Structural)]
pub enum Mode {
    /// Print the help text and leave.
    Help,
    /// Print the version and leave.
    Version,
    /// End the other running instances and leave.
    Kill,
    /// End the other running instances, then keep the machine awake.
    Run,
}

/// Chooses the mode: help goes before version, version before kill, and
/// without any of the three the program runs.
pub fn select_mode(help: bool, version: bool, kill: bool) -> (mode: Mode)
    ensures
        mode == if help {
            Mode::Help
        } else if version {
            Mode::Version
        } else if kill {
            Mode::Kill
        } else {
            Mode::Run
        },
{
    if help {
        Mode::Help
    } else if version {
        Mode::Version
    } else if kill {
        Mode::Kill
    } else {
        Mode::Run
    }
}

/// The arguments with which the program starts itself again: its own name,
/// the daemon flag where the run is to detach, and the timestamp at which
/// the run is to end.
pub open spec fn replacement(
    invoked_as: Option<Seq<char>>,
    daemon: bool,
    deadline: Seq<char>,
) -> Seq<Seq<char>> {
    let program = match invoked_as {
        Some(name) => name,
        None => PROGRAM_NAME@,
    };
    if daemon {
        seq![program, DAEMON_FLAG@, deadline]
    } else {
        seq![program, deadline]
    }
}

/// The texts of the arguments, in order.
pub open spec fn texts(arguments: Seq<String>) -> Seq<Seq<char>> {
    Seq::new(arguments.len(), |i: int| arguments[i]@)
}

/// Builds the arguments with which the program starts itself again.
pub fn replacement_arguments(
    invoked_as: Option<&str>,
    daemon: bool,
    deadline: &str,
) -> (arguments: Vec<String>)
    ensures
        texts(arguments@) == replacement(argument_text(invoked_as), daemon, deadline@),
{
    let program = match invoked_as {
        Some(name) => name,
        None => PROGRAM_NAME,
    };
    let mut arguments: Vec<String> = Vec::new();
    arguments.push(program.to_owned());
    if daemon {
        arguments.push(DAEMON_FLAG.to_owned());
    }
    arguments.push(deadline.to_owned());
    arguments
}

/// What a run is to do with its duration argument.
#[derive(Debug)]
pub enum Plan {
    /// Hold the assertions for this long.
    Hold(DurationSpec),
    /// Replace the process by one started with these arguments.
    Replace(Vec<String>),
}

/// Whether `plan` is to hold for the duration that `resolved` gives, or
/// fails with the error that it gives.
pub open spec fn holds_for(
    plan: Result<Plan, AwakeError>,
    resolved: Result<DurationSpec, AwakeError>,
) -> bool {
    match resolved {
        Ok(duration) => plan matches Ok(Plan::Hold(held)) && held == duration,
        Err(error) => plan matches Err(failure) && failure == error,
    }
}

/// Whether `plan` is to replace the process by one that is started under
/// the same name, with the daemon flag where `daemon` is set, and with some
/// timestamp.
pub open spec fn replaces_with(
    plan: Result<Plan, AwakeError>,
    invoked_as: Option<Seq<char>>,
    daemon: bool,
) -> bool {
    plan matches Ok(Plan::Replace(arguments)) && exists|deadline: Seq<char>|
        texts(arguments@) == #[trigger] replacement(invoked_as, daemon, deadline)
}

/// What is planned for a relative duration, by the timestamp of its end:
/// the replacement of the process by one that is started with that
/// timestamp, or a parse error where there is no timestamp.
pub open spec fn replacement_planned(
    plan: Result<Plan, AwakeError>,
    invoked_as: Option<Seq<char>>,
    daemon: bool,
    deadline: Option<Seq<char>>,
) -> bool {
    match deadline {
        Some(text) => plan matches Ok(Plan::Replace(arguments)) && texts(arguments@)
            == replacement(invoked_as, daemon, text),
        None => plan == Err::<Plan, AwakeError>(AwakeError::ParseError),
    }
}

/// The text of a timestamp, where there is one.
pub open spec fn deadline_text(deadline: Option<String>) -> Option<Seq<char>> {
    match deadline {
        Some(text) => Some(text@),
        None => None,
    }
}

/// Plans what is to become of a relative duration, once the timestamp of its
/// end has been asked for: with a timestamp, the process is to be replaced
/// by one that is started with it; without one, the duration is refused.
pub fn replacement_plan(
    invoked_as: Option<&str>,
    daemon: bool,
    deadline: Option<String>,
) -> (plan: Result<Plan, AwakeError>)
    ensures
        replacement_planned(plan, argument_text(invoked_as), daemon, deadline_text(deadline)),
{
    match deadline {
        Some(text) => Ok(Plan::Replace(replacement_arguments(invoked_as, daemon, text.as_str()))),
        None => Err(AwakeError::ParseError),
    }
}

/// Plans a run from its duration argument.
///
/// Without an argument the run holds without end. A timestamp is resolved at
/// the reading of the local clock, and the run holds until then. A relative
/// duration is not held for by this process: its end is written as a
/// timestamp, and the process is to be replaced by one that is started with
/// that timestamp, so that the arguments of the running process say when it
/// ends. A text that its grammar refuses is a parse error, and so is a
/// relative duration whose end the calendar does not reach, as any of more
/// than [`MAX_SPAN_SECONDS`] seconds.
pub fn plan_run(
    argument: Option<&str>,
    daemon: bool,
    invoked_as: Option<&str>,
) -> (plan: Result<Plan, AwakeError>)
    ensures
        match argument_text(argument) {
            Some(text) if !absolute_form(text) => match parse_outcome(text) {
                Ok(seconds) => {
                    &&& seconds > MAX_SPAN_SECONDS ==> plan == Err::<Plan, AwakeError>(
                        AwakeError::ParseError,
                    )
                    &&& {
                        ||| replaces_with(plan, argument_text(invoked_as), daemon)
                        ||| plan == Err::<Plan, AwakeError>(AwakeError::ParseError)
                    }
                },
                Err(_) => plan == Err::<Plan, AwakeError>(AwakeError::ParseError),
            },
            other => exists|now: CivilTime|
                now.valid() && holds_for(plan, #[trigger] resolution(other, now)),
        },
{
    match argument {
        Some(text) if !is_absolute_form(text) => match parse_duration(text) {
            Ok(seconds) => replacement_plan(invoked_as, daemon, deadline_after(seconds)),
            Err(_) => Err(AwakeError::ParseError),
        },
        other => match resolve_duration(other) {
            Ok(duration) => Ok(Plan::Hold(duration)),
            Err(error) => Err(error),
        },
    }
}

/// The timestamp of the local time `seconds` from now, where the calendar
/// reaches that far.
///
/// The seconds are handed on as they are to be added to the reading of the
/// clock, so there is a timestamp only for a span that can be reckoned with.
/// Whether there is one for a shorter span is for the clock and the
/// calendar to say.
fn deadline_after(seconds: u64) -> (deadline: Option<String>)
    ensures
        deadline is Some ==> seconds <= MAX_SPAN_SECONDS,
{
    if seconds > i64::MAX as u64 {
        None
    } else {
        local_time_after(seconds as i64, DATETIME_FORMAT)
    }
}

} // verus!
