use awake::duration::DurationSpec;
use awake::error::AwakeError;
use awake::schedule::{is_absolute_form, DATETIME_FORMAT, DATETIME_LENGTH};
use awake::civil::MAX_SPAN_SECONDS;
use awake::startup::{
    plan_run, replacement_arguments, replacement_plan, select_mode, Mode, Plan, DAEMON_FLAG,
    PROGRAM_NAME,
};

#[test]
fn help_goes_before_everything() {
    assert_eq!(select_mode(true, false, false), Mode::Help);
    assert_eq!(select_mode(true, true, false), Mode::Help);
    assert_eq!(select_mode(true, false, true), Mode::Help);
    assert_eq!(select_mode(true, true, true), Mode::Help);
}

#[test]
fn version_goes_before_kill() {
    assert_eq!(select_mode(false, true, false), Mode::Version);
    assert_eq!(select_mode(false, true, true), Mode::Version);
}

#[test]
fn kill_goes_before_the_run() {
    assert_eq!(select_mode(false, false, true), Mode::Kill);
    assert_eq!(select_mode(false, false, false), Mode::Run);
}

#[test]
fn constants_of_the_command_line() {
    assert_eq!(PROGRAM_NAME, "awake");
    assert_eq!(DAEMON_FLAG, "--daemon");
    assert_eq!(DATETIME_FORMAT, "%Y-%m-%dT%H:%M:%S");
    assert_eq!(DATETIME_LENGTH, 19);
}

#[test]
fn replacement_names_the_program_and_the_deadline() {
    assert_eq!(
        replacement_arguments(Some("/usr/local/bin/awake"), false, "2030-01-01T00:00:00"),
        vec!["/usr/local/bin/awake", "2030-01-01T00:00:00"]
    );
}

#[test]
fn replacement_keeps_the_daemon_flag() {
    assert_eq!(
        replacement_arguments(Some("./awake"), true, "2030-01-01T00:00:00"),
        vec!["./awake", "--daemon", "2030-01-01T00:00:00"]
    );
}

#[test]
fn replacement_falls_back_on_the_programs_name() {
    assert_eq!(replacement_arguments(None, false, "x"), vec!["awake", "x"]);
    assert_eq!(replacement_arguments(None, true, "x"), vec!["awake", "--daemon", "x"]);
    assert_eq!(replacement_arguments(Some(""), false, ""), vec!["", ""]);
}

#[test]
fn no_argument_plans_an_unbounded_hold() {
    match plan_run(None, false, Some("awake")) {
        Ok(Plan::Hold(DurationSpec::Unbounded)) => {}
        other => panic!("unexpected plan: {:?}", other),
    }
    match plan_run(None, true, None) {
        Ok(Plan::Hold(DurationSpec::Unbounded)) => {}
        other => panic!("unexpected plan: {:?}", other),
    }
}

#[test]
fn past_timestamp_plans_a_hold_of_zero_seconds() {
    match plan_run(Some("1999-12-31T23:59:59"), false, Some("awake")) {
        Ok(Plan::Hold(DurationSpec::Seconds(0))) => {}
        other => panic!("unexpected plan: {:?}", other),
    }
}

#[test]
fn future_timestamp_plans_a_bounded_hold() {
    match plan_run(Some("9999-12-31T23:59:59"), true, Some("awake")) {
        Ok(Plan::Hold(DurationSpec::Seconds(seconds))) => assert!(seconds > 0),
        other => panic!("unexpected plan: {:?}", other),
    }
}

#[test]
fn relative_duration_plans_a_replacement() {
    match plan_run(Some("12h30m"), false, Some("/bin/awake")) {
        Ok(Plan::Replace(arguments)) => {
            assert_eq!(arguments.len(), 2);
            assert_eq!(arguments[0], "/bin/awake");
            assert!(is_absolute_form(&arguments[1]));
            match plan_run(Some(&arguments[1]), false, Some("/bin/awake")) {
                Ok(Plan::Hold(DurationSpec::Seconds(seconds))) => {
                    // a change of the clocks on the way may shift the civil time
                    assert!(seconds <= 45_000 + 7_200);
                    assert!(seconds >= 45_000 - 7_200 - 60);
                }
                other => panic!("unexpected plan: {:?}", other),
            }
        }
        other => panic!("unexpected plan: {:?}", other),
    }
}

#[test]
fn relative_duration_keeps_the_daemon_flag() {
    match plan_run(Some("90s"), true, None) {
        Ok(Plan::Replace(arguments)) => {
            assert_eq!(arguments.len(), 3);
            assert_eq!(arguments[0], "awake");
            assert_eq!(arguments[1], "--daemon");
            assert!(is_absolute_form(&arguments[2]));
        }
        other => panic!("unexpected plan: {:?}", other),
    }
}

#[test]
fn refused_text_plans_nothing() {
    for text in ["", "5", "1h2h", "01h", "2099-13-01T00:00:00", "abcd-efghijklmnopqr"] {
        match plan_run(Some(text), false, Some("awake")) {
            Err(AwakeError::ParseError) => {}
            other => panic!("unexpected plan for {:?}: {:?}", text, other),
        }
    }
}

#[test]
fn duration_beyond_the_calendar_plans_nothing() {
    for text in ["18446744073709551615s", "9223372036854775807s", "99999999999999d"] {
        match plan_run(Some(text), false, Some("awake")) {
            Err(AwakeError::ParseError) => {}
            other => panic!("unexpected plan for {:?}: {:?}", text, other),
        }
    }
}

#[test]
fn timestamp_in_hand_plans_the_replacement() {
    match replacement_plan(Some("/bin/awake"), true, Some("2030-01-01T00:00:00".to_string())) {
        Ok(Plan::Replace(arguments)) => {
            assert_eq!(arguments, vec!["/bin/awake", "--daemon", "2030-01-01T00:00:00"]);
        }
        other => panic!("unexpected plan: {:?}", other),
    }
    match replacement_plan(None, false, Some(String::new())) {
        Ok(Plan::Replace(arguments)) => assert_eq!(arguments, vec!["awake", ""]),
        other => panic!("unexpected plan: {:?}", other),
    }
}

#[test]
fn no_timestamp_in_hand_plans_nothing() {
    for daemon in [false, true] {
        match replacement_plan(Some("awake"), daemon, None) {
            Err(AwakeError::ParseError) => {}
            other => panic!("unexpected plan: {:?}", other),
        }
    }
}

#[test]
fn longest_span_is_that_of_chrono() {
    assert_eq!(MAX_SPAN_SECONDS, i64::MAX / 1_000);
    assert!(chrono::TimeDelta::try_seconds(MAX_SPAN_SECONDS).is_some());
    assert!(chrono::TimeDelta::try_seconds(MAX_SPAN_SECONDS + 1).is_none());
    assert!(chrono::TimeDelta::try_seconds(-MAX_SPAN_SECONDS).is_some());
    assert!(chrono::TimeDelta::try_seconds(-MAX_SPAN_SECONDS - 1).is_none());
}

#[test]
fn span_beyond_the_longest_plans_nothing() {
    for text in ["9223372036854776s", "9223372036854775s", "153722867280913m", "106751991167301d"] {
        match plan_run(Some(text), false, Some("awake")) {
            Err(AwakeError::ParseError) => {}
            other => panic!("unexpected plan for {:?}: {:?}", text, other),
        }
    }
}
