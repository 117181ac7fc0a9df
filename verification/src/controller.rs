//! The lifecycle of one run: acquire the assertions, arm the interrupt
//! watcher, hold until the duration runs out or an interrupt arrives, release
//! every assertion once, exit.
//!
//! The controller decides and a driver acts. The controller hands out one
//! [`Action`] at a time; the driver performs it and reports what came of it
//! as an [`Event`], which the controller answers with the next action. The two
//! triggers of a release, the end of the wait and an interrupt, are events
//! like the others: the one that comes first starts the release, and the one
//! that comes second is told to wait.

use vstd::prelude::*;
use crate::assertions::AssertionSet;
use crate::duration::DurationSpec;
use crate::error::{AwakeError, Outcome};
use crate::power::{AssertionKind, Handle};

verus! {

/// How many assertions a run acquires: four named ones and one declaration
/// of user activity.
pub const ASSERTION_COUNT: usize = 5;

/// Where a run stands.
#[derive(Clone, Copy, Debug, PartialEq, Eq, Structural)]
pub enum Phase {
    /// Waiting for the power capability to be acquired.
    Loading,
    /// Creating the assertions, one after another.
    Acquiring,
    /// Every assertion is held; waiting for the interrupt watcher to be armed.
    Arming,
    /// Every assertion is held and the run blocks.
    Held,
    /// A trigger has fired; releasing the assertions, one after another.
    Releasing,
    /// The run is over.
    Exited,
}

/// What the driver is to do next.
#[derive(Clone, Copy, Debug, PartialEq, Eq, Structural)]
pub enum Action {
    /// Acquire the power capability. Answered by `Completed` or `Failed`.
    AcquireCapability,
    /// Create an assertion of this kind, switched on. Answered by `Created` or `Failed`.
    Create(AssertionKind),
    /// Declare user activity, switched on. Answered by `Created` or `Failed`.
    DeclareUserActivity,
    /// Register for the interrupt and start watching for it. Answered by
    /// `Completed` or `Failed`; from then on `Interrupted` may arrive at any time.
    WatchInterrupt,
    /// Block for the duration, or without end. Answered by `Elapsed`.
    Block(DurationSpec),
    /// Release this handle. Answered by `Completed` or `Failed`.
    Release(Handle),
    /// Nothing: the event changed nothing, and what was asked before still stands.
    Wait,
    /// Leave with this outcome.
    Exit(Outcome),
}

/// What the driver reports.
#[derive(Clone, Copy, Debug, PartialEq, Eq, Structural)]
pub enum Event {
    /// The action asked for was done.
    Completed,
    /// The creation asked for gave this handle.
    Created(Handle),
    /// The action asked for failed with this error.
    Failed(AwakeError),
    /// The wait asked for is over.
    Elapsed,
    /// An interrupt has arrived.
    Interrupted,
}

/// The state of a run, as the contracts speak of it.
pub struct RunState {
    /// Where the run stands.
    pub phase: Phase,
    /// For how long the assertions are to be held.
    pub duration: DurationSpec,
    /// The handles created so far, oldest first.
    pub handles: Seq<Handle>,
    /// Whether a trigger has fired and the set counts as released.
    pub released: bool,
    /// How many of the handles the driver has been asked to release.
    pub issued: nat,
    /// How the run ended, once it has exited.
    pub outcome: Outcome,
}

/// The action that acquires the assertion at `index`, in the fixed order of
/// acquisition.
pub open spec fn acquisition(index: int) -> Action {
    if index == 0 {
        Action::Create(AssertionKind::PreventUserIdleDisplaySleep)
    } else if index == 1 {
        Action::Create(AssertionKind::PreventDiskIdle)
    } else if index == 2 {
        Action::Create(AssertionKind::PreventUserIdleSystemSleep)
    } else if index == 3 {
        Action::Create(AssertionKind::PreventSystemSleep)
    } else {
        Action::DeclareUserActivity
    }
}

/// The state that a run with this duration starts in, and its first action.
///
/// A duration of zero seconds is over before it begins: the run exits with
/// success at once and acquires nothing. Every other run starts by acquiring
/// the power capability.
pub open spec fn initial(duration: DurationSpec) -> (RunState, Action) {
    let phase = if duration == DurationSpec::Seconds(0) {
        Phase::Exited
    } else {
        Phase::Loading
    };
    let state = RunState {
        phase,
        duration,
        handles: Seq::empty(),
        released: false,
        issued: 0,
        outcome: Outcome::Success,
    };
    if duration == DurationSpec::Seconds(0) {
        (state, Action::Exit(Outcome::Success))
    } else {
        (state, Action::AcquireCapability)
    }
}

/// A trigger fires in a run that has not begun to release: the set counts as
/// released, and the release starts with the oldest handle. A run that holds
/// nothing exits with success.
pub open spec fn fire(s: RunState) -> (RunState, Action) {
    if s.handles.len() == 0 {
        (RunState { phase: Phase::Exited, released: true, ..s }, Action::Exit(Outcome::Success))
    } else {
        (
            RunState { phase: Phase::Releasing, released: true, issued: 1, ..s },
            Action::Release(s.handles[0]),
        )
    }
}

/// The run stops on `error`.
pub open spec fn fail(s: RunState, error: AwakeError) -> (RunState, Action) {
    (
        RunState { phase: Phase::Exited, outcome: Outcome::Failure(error), ..s },
        Action::Exit(Outcome::Failure(error)),
    )
}

/// The state after `event`, and the action that answers it.
///
/// - A run that has exited stays so and says so again.
/// - While releasing, each `Completed` asks for the next handle, and after the
///   last one the run exits with success; `Failed` ends the run with the error,
///   and what is left stays unreleased; every other event, a second trigger
///   among them, is answered by `Wait`.
/// - Before that, `Interrupted` fires the release, in whatever phase; `Failed`
///   ends the run with the error; `Completed` moves on from loading to the
///   first creation and from arming to blocking; `Created` adds the handle
///   and asks for the next assertion, or for the watcher after the last;
///   `Elapsed` fires the release of a held run with a bounded duration, and
///   sends a held run without one back to blocking.
/// - An event that the phase does not expect is answered by `Wait`.
pub open spec fn next(s: RunState, event: Event) -> (RunState, Action) {
    match s.phase {
        Phase::Exited => (s, Action::Exit(s.outcome)),
        Phase::Releasing => match event {
            Event::Completed => if s.issued < s.handles.len() {
                (RunState { issued: s.issued + 1, ..s }, Action::Release(s.handles[s.issued as int]))
            } else {
                (RunState { phase: Phase::Exited, ..s }, Action::Exit(Outcome::Success))
            },
            Event::Failed(error) => fail(s, error),
            _ => (s, Action::Wait),
        },
        _ => match event {
            Event::Interrupted => fire(s),
            Event::Failed(error) => fail(s, error),
            Event::Completed => if s.phase == Phase::Loading {
                (RunState { phase: Phase::Acquiring, ..s }, acquisition(0))
            } else if s.phase == Phase::Arming {
                (RunState { phase: Phase::Held, ..s }, Action::Block(s.duration))
            } else {
                (s, Action::Wait)
            },
            Event::Created(handle) => if s.phase == Phase::Acquiring {
                let handles = s.handles.push(handle);
                if handles.len() < ASSERTION_COUNT {
                    (RunState { handles, ..s }, acquisition(handles.len() as int))
                } else {
                    (RunState { phase: Phase::Arming, handles, ..s }, Action::WatchInterrupt)
                }
            } else {
                (s, Action::Wait)
            },
            Event::Elapsed => if s.phase == Phase::Held {
                if s.duration == DurationSpec::Unbounded {
                    (s, Action::Block(s.duration))
                } else {
                    fire(s)
                }
            } else {
                (s, Action::Wait)
            },
        },
    }
}

/// What holds of every state that a run passes through.
///
/// Until a trigger fires nothing has been released: the handles grow to
/// [`ASSERTION_COUNT`] while acquiring and stay so while arming and held.
/// While releasing, the set counts as released and at least one release has
/// been asked for. No run that is under way has a duration of zero seconds.
pub open spec fn consistent(s: RunState) -> bool {
    &&& s.issued <= s.handles.len() <= ASSERTION_COUNT
    &&& s.phase != Phase::Exited ==> s.outcome == Outcome::Success && s.duration
        != DurationSpec::Seconds(0)
    &&& match s.phase {
        Phase::Loading => s.handles.len() == 0 && !s.released && s.issued == 0,
        Phase::Acquiring => s.handles.len() < ASSERTION_COUNT && !s.released && s.issued == 0,
        Phase::Arming | Phase::Held => s.handles.len() == ASSERTION_COUNT && !s.released
            && s.issued == 0,
        Phase::Releasing => s.released && s.issued >= 1,
        Phase::Exited => true,
    }
}

/// The controller of one run.
pub struct RunController {
    phase: Phase,
    duration: DurationSpec,
    set: AssertionSet,
    issued: usize,
    outcome: Outcome,
}

impl View for RunController {
    type V = RunState;

    closed spec fn view(&self) -> RunState {
        RunState {
            phase: self.phase,
            duration: self.duration,
            handles: self.set.handles(),
            released: self.set.is_released(),
            issued: self.issued as nat,
            outcome: self.outcome,
        }
    }
}

impl RunController {
    #[verifier::type_invariant]
    spec fn well_formed(self) -> bool {
        consistent(self@)
    }

    /// Starts a run that is to hold its assertions for `duration`, and gives
    /// its first action.
    pub fn start(duration: DurationSpec) -> (r: (RunController, Action))
        ensures
            (r.0@, r.1) == initial(duration),
            consistent(r.0@),
    {
        let skip = match duration {
            DurationSpec::Seconds(seconds) => seconds == 0,
            DurationSpec::Unbounded => false,
        };
        let controller = RunController {
            phase: if skip {
                Phase::Exited
            } else {
                Phase::Loading
            },
            duration,
            set: AssertionSet::new(),
            issued: 0,
            outcome: Outcome::Success,
        };
        let action = if skip {
            Action::Exit(Outcome::Success)
        } else {
            Action::AcquireCapability
        };
        (controller, action)
    }

    /// Takes the driver's report and gives the next action.
    pub fn step(self, event: Event) -> (r: (RunController, Action))
        ensures
            (r.0@, r.1) == next(self@, event),
            consistent(r.0@),
    {
        proof {
            use_type_invariant(&self);
        }
        match self.phase {
            Phase::Exited => {
                let outcome = self.outcome;
                (self, Action::Exit(outcome))
            },
            Phase::Releasing => match event {
                Event::Completed => self.release_next(),
                Event::Failed(error) => self.stop(error),
                _ => (self, Action::Wait),
            },
            _ => match event {
                Event::Interrupted => self.fire(),
                Event::Failed(error) => self.stop(error),
                Event::Completed => match self.phase {
                    Phase::Loading => {
                        let RunController { phase: _, duration, set, issued, outcome } = self;
                        (
                            RunController { phase: Phase::Acquiring, duration, set, issued, outcome },
                            Action::Create(AssertionKind::PreventUserIdleDisplaySleep),
                        )
                    },
                    Phase::Arming => {
                        let RunController { phase: _, duration, set, issued, outcome } = self;
                        (
                            RunController { phase: Phase::Held, duration, set, issued, outcome },
                            Action::Block(duration),
                        )
                    },
                    _ => (self, Action::Wait),
                },
                Event::Created(handle) => match self.phase {
                    Phase::Acquiring => self.record(handle),
                    _ => (self, Action::Wait),
                },
                Event::Elapsed => match self.phase {
                    Phase::Held => match self.duration {
                        DurationSpec::Unbounded => {
                            let duration = self.duration;
                            (self, Action::Block(duration))
                        },
                        DurationSpec::Seconds(_) => self.fire(),
                    },
                    _ => (self, Action::Wait),
                },
            },
        }
    }

    /// Where the run stands.
    pub fn phase(&self) -> (phase: Phase)
        ensures
            phase == self@.phase,
    {
        self.phase
    }

    /// For how long the run is to hold its assertions.
    pub fn duration(&self) -> (duration: DurationSpec)
        ensures
            duration == self@.duration,
    {
        self.duration
    }

    /// The assertions created so far.
    pub fn assertions(&self) -> (set: &AssertionSet)
        ensures
            set.handles() == self@.handles,
            set.is_released() == self@.released,
    {
        &self.set
    }

    /// How many of the assertions the driver has been asked to release.
    pub fn issued(&self) -> (issued: usize)
        ensures
            issued == self@.issued,
    {
        self.issued
    }

    /// How the run ended, once it has exited.
    pub fn outcome(&self) -> (outcome: Option<Outcome>)
        ensures
            outcome == if self@.phase == Phase::Exited {
                Some(self@.outcome)
            } else {
                None
            },
    {
        match self.phase {
            Phase::Exited => Some(self.outcome),
            _ => None,
        }
    }

    /// The action that acquires the assertion at `index`.
    fn acquire(index: usize) -> (action: Action)
        ensures
            action == acquisition(index as int),
    {
        if index == 0 {
            Action::Create(AssertionKind::PreventUserIdleDisplaySleep)
        } else if index == 1 {
            Action::Create(AssertionKind::PreventDiskIdle)
        } else if index == 2 {
            Action::Create(AssertionKind::PreventUserIdleSystemSleep)
        } else if index == 3 {
            Action::Create(AssertionKind::PreventSystemSleep)
        } else {
            Action::DeclareUserActivity
        }
    }

    /// Adds a handle while acquiring, and asks for what comes next.
    fn record(self, handle: Handle) -> (r: (RunController, Action))
        requires
            self@.phase == Phase::Acquiring,
        ensures
            (r.0@, r.1) == next(self@, Event::Created(handle)),
            consistent(r.0@),
    {
        proof {
            use_type_invariant(&self);
        }
        let RunController { phase: _, duration, mut set, issued, outcome } = self;
        let taken = set.add(handle);
        assert(taken);
        let count: usize = set.len();
        if count < ASSERTION_COUNT {
            (
                RunController { phase: Phase::Acquiring, duration, set, issued, outcome },
                Self::acquire(count),
            )
        } else {
            (
                RunController { phase: Phase::Arming, duration, set, issued, outcome },
                Action::WatchInterrupt,
            )
        }
    }

    /// Marks the set released and asks for the first release.
    fn fire(self) -> (r: (RunController, Action))
        requires
            self@.phase != Phase::Exited,
            self@.phase != Phase::Releasing,
        ensures
            (r.0@, r.1) == fire(self@),
            consistent(r.0@),
    {
        proof {
            use_type_invariant(&self);
        }
        let RunController { phase: _, duration, mut set, issued: _, outcome } = self;
        let first = set.release_all();
        assert(first);
        match set.get(0) {
            Some(handle) => (
                RunController { phase: Phase::Releasing, duration, set, issued: 1, outcome },
                Action::Release(handle),
            ),
            None => (
                RunController { phase: Phase::Exited, duration, set, issued: 0, outcome },
                Action::Exit(Outcome::Success),
            ),
        }
    }

    /// Asks for the next release, or exits after the last.
    fn release_next(self) -> (r: (RunController, Action))
        requires
            self@.phase == Phase::Releasing,
        ensures
            (r.0@, r.1) == next(self@, Event::Completed),
            consistent(r.0@),
    {
        proof {
            use_type_invariant(&self);
        }
        let RunController { phase: _, duration, set, issued, outcome } = self;
        match set.get(issued) {
            Some(handle) => (
                RunController { phase: Phase::Releasing, duration, set, issued: issued + 1, outcome },
                Action::Release(handle),
            ),
            None => (
                RunController { phase: Phase::Exited, duration, set, issued, outcome },
                Action::Exit(Outcome::Success),
            ),
        }
    }

    /// Ends the run with `error`.
    fn stop(self, error: AwakeError) -> (r: (RunController, Action))
        requires
            self@.phase != Phase::Exited,
        ensures
            (r.0@, r.1) == fail(self@, error),
            consistent(r.0@),
    {
        proof {
            use_type_invariant(&self);
        }
        let RunController { phase: _, duration, set, issued, outcome: _ } = self;
        (
            RunController {
                phase: Phase::Exited,
                duration,
                set,
                issued,
                outcome: Outcome::Failure(error),
            },
            Action::Exit(Outcome::Failure(error)),
        )
    }
}

} // verus!
