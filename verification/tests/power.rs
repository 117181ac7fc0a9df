use awake::assertions::AssertionSet;
use awake::error::{AwakeError, Outcome};
use awake::power::{
    assertion_level, creation_result, release_result, AssertionKind, LEVEL_OFF, LEVEL_ON,
    STATUS_ALREADY_RELEASED, STATUS_SUCCESS,
};

#[test]
fn levels_are_full_on_and_off() {
    assert_eq!(assertion_level(true), 255);
    assert_eq!(assertion_level(false), 0);
    assert_eq!(LEVEL_ON, 255);
    assert_eq!(LEVEL_OFF, 0);
}

#[test]
fn kinds_go_by_the_power_managers_names() {
    assert_eq!(AssertionKind::PreventUserIdleDisplaySleep.name(), "PreventUserIdleDisplaySleep");
    assert_eq!(AssertionKind::PreventDiskIdle.name(), "PreventDiskIdle");
    assert_eq!(AssertionKind::PreventUserIdleSystemSleep.name(), "PreventUserIdleSystemSleep");
    assert_eq!(AssertionKind::PreventSystemSleep.name(), "PreventSystemSleep");
}

#[test]
fn creation_with_status_zero_gives_the_handle() {
    assert_eq!(creation_result(0, 42), Ok(42));
    assert_eq!(creation_result(0, 0), Ok(0));
    assert_eq!(creation_result(0, u32::MAX), Ok(u32::MAX));
}

#[test]
fn creation_with_another_status_fails_with_it() {
    assert_eq!(creation_result(1, 42), Err(AwakeError::AssertionCreateFailed(1)));
    assert_eq!(creation_result(-1, 42), Err(AwakeError::AssertionCreateFailed(-1)));
    assert_eq!(
        creation_result(-536_870_206, 0),
        Err(AwakeError::AssertionCreateFailed(-536_870_206))
    );
    assert_eq!(creation_result(i32::MIN, 7), Err(AwakeError::AssertionCreateFailed(i32::MIN)));
}

#[test]
fn release_with_status_zero_succeeds() {
    assert_eq!(STATUS_SUCCESS, 0);
    assert_eq!(release_result(0), Ok(()));
}

#[test]
fn release_of_what_is_released_succeeds() {
    assert_eq!(STATUS_ALREADY_RELEASED, 0xE000_02C2);
    assert_eq!(release_result(0xE000_02C2), Ok(()));
}

#[test]
fn release_twice_is_no_error() {
    let first = release_result(STATUS_SUCCESS);
    let second = release_result(STATUS_ALREADY_RELEASED);
    assert_eq!(first, Ok(()));
    assert_eq!(second, Ok(()));
}

#[test]
fn release_with_another_status_fails_with_it() {
    assert_eq!(release_result(1), Err(AwakeError::AssertionReleaseFailed(1)));
    assert_eq!(release_result(0xE000_02C1), Err(AwakeError::AssertionReleaseFailed(0xE000_02C1)));
    assert_eq!(release_result(0xE000_02C3), Err(AwakeError::AssertionReleaseFailed(0xE000_02C3)));
    assert_eq!(release_result(u32::MAX), Err(AwakeError::AssertionReleaseFailed(u32::MAX)));
}

#[test]
fn exit_codes_are_zero_and_one() {
    assert_eq!(Outcome::Success.exit_code(), 0);
    for error in [
        AwakeError::CapabilityUnavailable,
        AwakeError::SymbolNotFound,
        AwakeError::AssertionCreateFailed(3),
        AwakeError::AssertionReleaseFailed(4),
        AwakeError::ParseError,
        AwakeError::SignalRegistrationFailed,
    ] {
        assert_eq!(Outcome::Failure(error).exit_code(), 1);
    }
}

#[test]
fn new_set_is_empty_and_held() {
    let set = AssertionSet::new();
    assert_eq!(set.len(), 0);
    assert_eq!(set.get(0), None);
    assert!(!set.released());
}

#[test]
fn set_keeps_handles_in_order() {
    let mut set = AssertionSet::new();
    assert!(set.add(30));
    assert!(set.add(10));
    assert!(set.add(20));
    assert!(set.add(10));
    assert_eq!(set.len(), 4);
    assert_eq!(set.get(0), Some(30));
    assert_eq!(set.get(1), Some(10));
    assert_eq!(set.get(2), Some(20));
    assert_eq!(set.get(3), Some(10));
    assert_eq!(set.get(4), None);
    assert_eq!(set.get(usize::MAX), None);
}

#[test]
fn set_is_released_by_the_first_call_only() {
    let mut set = AssertionSet::new();
    set.add(1);
    set.add(2);
    assert!(set.release_all());
    assert!(set.released());
    assert!(!set.release_all());
    assert!(!set.release_all());
    assert!(set.released());
    assert_eq!(set.len(), 2);
    assert_eq!(set.get(0), Some(1));
    assert_eq!(set.get(1), Some(2));
}

#[test]
fn empty_set_is_released_once_too() {
    let mut set = AssertionSet::new();
    assert!(set.release_all());
    assert!(!set.release_all());
    assert_eq!(set.len(), 0);
}

#[test]
fn released_set_takes_no_more_handles() {
    let mut set = AssertionSet::new();
    assert!(set.add(1));
    assert!(set.release_all());
    assert!(!set.add(2));
    assert_eq!(set.len(), 1);
    assert_eq!(set.get(1), None);
    assert!(set.released());
}
