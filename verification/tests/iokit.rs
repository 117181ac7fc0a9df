use std::cell::RefCell;

use awake::controller::{Action, Event};
use awake::duration::DurationSpec;
use awake::error::{AwakeError, Outcome};
use awake::iokit::IOKit;
use awake::power::{AssertionKind, Handle};

/// What the entry points were asked, in order.
type Log = RefCell<Vec<String>>;

/// A binding whose entry points write down what they are asked and answer
/// with a fixed status.
fn answering(
    log: &Log,
    status: i32,
    release_status: u32,
) -> IOKit<
    impl Fn(&str, u32) -> Option<(i32, Handle)> + '_,
    impl Fn(Handle) -> Option<u32> + '_,
    impl Fn(u32) -> Option<(i32, Handle)> + '_,
> {
    IOKit::new(
        move |name: &str, level: u32| {
            log.borrow_mut().push(format!("create {} {}", name, level));
            Some((status, 11))
        },
        move |handle: Handle| {
            log.borrow_mut().push(format!("release {}", handle));
            Some(release_status)
        },
        move |level: u32| {
            log.borrow_mut().push(format!("declare {}", level));
            Some((status, 22))
        },
    )
}

/// A binding none of whose entry points is to be found.
fn unbound() -> IOKit<
    impl Fn(&str, u32) -> Option<(i32, Handle)>,
    impl Fn(Handle) -> Option<u32>,
    impl Fn(u32) -> Option<(i32, Handle)>,
> {
    IOKit::new(|_: &str, _: u32| None, |_: Handle| None, |_: u32| None)
}

#[test]
fn creation_hands_on_the_name_and_the_level() {
    let log = Log::default();
    let iokit = answering(&log, 0, 0);
    assert_eq!(iokit.create_assertion("PreventSystemSleep", true), Ok(11));
    assert_eq!(iokit.create_assertion("NoSuchThing", false), Ok(11));
    assert_eq!(*log.borrow(), vec!["create PreventSystemSleep 255", "create NoSuchThing 0"]);
}

#[test]
fn creation_reads_the_status() {
    let log = Log::default();
    assert_eq!(answering(&log, 0, 0).create_assertion("x", true), Ok(11));
    assert_eq!(
        answering(&log, 5, 0).create_assertion("x", true),
        Err(AwakeError::AssertionCreateFailed(5))
    );
    assert_eq!(
        answering(&log, -536_870_206, 0).create_assertion("x", true),
        Err(AwakeError::AssertionCreateFailed(-536_870_206))
    );
}

#[test]
fn declaration_hands_on_the_level_and_reads_the_status() {
    let log = Log::default();
    assert_eq!(answering(&log, 0, 0).declare_user_activity(true), Ok(22));
    assert_eq!(answering(&log, 0, 0).declare_user_activity(false), Ok(22));
    assert_eq!(
        answering(&log, 9, 0).declare_user_activity(true),
        Err(AwakeError::AssertionCreateFailed(9))
    );
    assert_eq!(*log.borrow(), vec!["declare 255", "declare 0", "declare 255"]);
}

#[test]
fn release_hands_on_the_handle_and_reads_the_status() {
    let log = Log::default();
    assert_eq!(answering(&log, 0, 0).release_assertion(77), Ok(()));
    assert_eq!(answering(&log, 0, 0xE000_02C2).release_assertion(78), Ok(()));
    assert_eq!(
        answering(&log, 0, 0xE000_02BC).release_assertion(79),
        Err(AwakeError::AssertionReleaseFailed(0xE000_02BC))
    );
    assert_eq!(*log.borrow(), vec!["release 77", "release 78", "release 79"]);
}

#[test]
fn release_twice_through_the_binding_is_no_error() {
    let live = RefCell::new(vec![5u32]);
    let iokit = IOKit::new(
        |_: &str, _: u32| None,
        |handle: Handle| {
            let mut live = live.borrow_mut();
            Some(match live.iter().position(|held| *held == handle) {
                Some(index) => {
                    live.remove(index);
                    0
                }
                None => 0xE000_02C2,
            })
        },
        |_: u32| None,
    );
    assert_eq!(iokit.release_assertion(5), Ok(()));
    assert_eq!(iokit.release_assertion(5), Ok(()));
    assert_eq!(iokit.release_assertion(5), Ok(()));
    assert!(live.borrow().is_empty());
}

#[test]
fn missing_entry_point_is_a_missing_symbol() {
    let iokit = unbound();
    assert_eq!(iokit.create_assertion("x", true), Err(AwakeError::SymbolNotFound));
    assert_eq!(iokit.declare_user_activity(true), Err(AwakeError::SymbolNotFound));
    assert_eq!(iokit.release_assertion(1), Err(AwakeError::SymbolNotFound));
}

#[test]
fn requests_are_done_and_reported() {
    let log = Log::default();
    let iokit = answering(&log, 0, 0);
    assert_eq!(
        iokit.perform(Action::Create(AssertionKind::PreventDiskIdle)),
        Some(Event::Created(11))
    );
    assert_eq!(iokit.perform(Action::DeclareUserActivity), Some(Event::Created(22)));
    assert_eq!(iokit.perform(Action::Release(11)), Some(Event::Completed));
    assert_eq!(*log.borrow(), vec!["create PreventDiskIdle 255", "declare 255", "release 11"]);
}

#[test]
fn failed_requests_are_reported_as_failures() {
    let log = Log::default();
    let iokit = answering(&log, 3, 4);
    assert_eq!(
        iokit.perform(Action::Create(AssertionKind::PreventSystemSleep)),
        Some(Event::Failed(AwakeError::AssertionCreateFailed(3)))
    );
    assert_eq!(
        iokit.perform(Action::DeclareUserActivity),
        Some(Event::Failed(AwakeError::AssertionCreateFailed(3)))
    );
    assert_eq!(
        iokit.perform(Action::Release(1)),
        Some(Event::Failed(AwakeError::AssertionReleaseFailed(4)))
    );
    assert_eq!(
        unbound().perform(Action::Release(1)),
        Some(Event::Failed(AwakeError::SymbolNotFound))
    );
}

#[test]
fn other_actions_are_left_to_the_driver() {
    let log = Log::default();
    let iokit = answering(&log, 0, 0);
    for action in [
        Action::AcquireCapability,
        Action::WatchInterrupt,
        Action::Block(DurationSpec::Unbounded),
        Action::Block(DurationSpec::Seconds(3)),
        Action::Wait,
        Action::Exit(Outcome::Success),
        Action::Exit(Outcome::Failure(AwakeError::ParseError)),
    ] {
        assert_eq!(iokit.perform(action), None);
    }
    assert!(log.borrow().is_empty());
}
