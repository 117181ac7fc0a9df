//! The controller and the framework brought together: what the controller
//! asks of the framework is done, and what came of it is reported back.

use vstd::prelude::*;
use crate::controller::{
    consistent, next, Action, Event, Phase, RunController, RunState, ASSERTION_COUNT,
};
use crate::error::{AwakeError, Outcome};
use crate::iokit::{created, released, IOKit};
use crate::power::{Handle, LEVEL_ON};
use crate::trace::run;

verus! {

/// The report of a creation to the controller.
pub open spec fn creation_event(result: Result<Handle, AwakeError>) -> Event {
    match result {
        Ok(handle) => Event::Created(handle),
        Err(error) => Event::Failed(error),
    }
}

/// The report of a release to the controller.
pub open spec fn release_event(result: Result<(), AwakeError>) -> Event {
    match result {
        Ok(_) => Event::Completed,
        Err(error) => Event::Failed(error),
    }
}

/// Whether `action` is a request to the framework.
pub open spec fn is_request(action: Action) -> bool {
    action is Create || action is DeclareUserActivity || action is Release
}

/// The state and the action that stands when `events` have been reported one
/// after another, the first of them on `action` in the state `s`.
pub open spec fn outcome_of(s: RunState, action: Action, events: Seq<Event>) -> (RunState, Action)
    decreases events.len(),
{
    if events.len() == 0 {
        (s, action)
    } else {
        outcome_of(next(s, events[0]).0, next(s, events[0]).1, events.skip(1))
    }
}

/// What stands after some reports is what the run over them leads to: its
/// last state, and the last of its actions.
pub proof fn lemma_outcome_is_run(s: RunState, action: Action, events: Seq<Event>)
    requires
        events.len() > 0,
    ensures
        outcome_of(s, action, events) == (run(s, events).0, run(s, events).1.last()),
    decreases events.len(),
{
    let (mid, answer) = next(s, events[0]);
    if events.len() > 1 {
        lemma_outcome_is_run(mid, answer, events.skip(1));
    } else {
        assert(outcome_of(mid, answer, events.skip(1)) == (mid, answer));
        assert(run(mid, events.skip(1)).1 =~= Seq::<Action>::empty());
    }
}

/// How many requests to the framework a run may still make, at most.
spec fn requests_left(s: RunState) -> nat {
    match s.phase {
        Phase::Acquiring => (ASSERTION_COUNT - s.handles.len()) as nat,
        Phase::Releasing => (s.handles.len() - s.issued + 1) as nat,
        _ => 0,
    }
}

/// Whether `action` is the request that a run in the state `s` waits for.
spec fn awaited(s: RunState, action: Action) -> bool {
    ||| s.phase == Phase::Acquiring && (action is Create || action is DeclareUserActivity)
    ||| s.phase == Phase::Releasing && action is Release
}

impl<C, R, D> IOKit<C, R, D> where
    C: Fn(&str, u32) -> Option<(i32, Handle)>,
    R: Fn(Handle) -> Option<u32>,
    D: Fn(u32) -> Option<(i32, Handle)>,
{
    /// Whether `event` may be the report of what the framework did on
    /// `action`: the reading of an answer that the framework may give to the
    /// request that the action stands for. An assertion is created by its
    /// kind's name and switched on, and so is user activity declared.
    pub open spec fn reports(&self, action: Action, event: Event) -> bool {
        match action {
            Action::Create(kind) => exists|name: &str, answer: Option<(i32, Handle)>|
                {
                    &&& name@ == kind.spec_name()
                    &&& #[trigger] self.creation_answer(name, LEVEL_ON, answer)
                    &&& event == creation_event(created(answer))
                },
            Action::DeclareUserActivity => exists|answer: Option<(i32, Handle)>|
                {
                    &&& #[trigger] self.declaration_answer(LEVEL_ON, answer)
                    &&& event == creation_event(created(answer))
                },
            Action::Release(handle) => exists|answer: Option<u32>|
                {
                    &&& #[trigger] self.release_answer(handle, answer)
                    &&& event == release_event(released(answer))
                },
            _ => false,
        }
    }

    /// Does what the controller asks of the framework, and reports it.
    ///
    /// The three requests to the framework are done, each by one call of its
    /// entry point. Every other action is not this binding's to do, and is
    /// answered by `None`.
    pub fn perform(&self, action: Action) -> (event: Option<Event>)
        ensures
            match event {
                Some(report) => self.reports(action, report),
                None => !is_request(action),
            },
    {
        match action {
            Action::Create(kind) => match self.create_assertion(kind.name(), true) {
                Ok(handle) => Some(Event::Created(handle)),
                Err(error) => Some(Event::Failed(error)),
            },
            Action::DeclareUserActivity => match self.declare_user_activity(true) {
                Ok(handle) => Some(Event::Created(handle)),
                Err(error) => Some(Event::Failed(error)),
            },
            Action::Release(handle) => match self.release_assertion(handle) {
                Ok(_) => Some(Event::Completed),
                Err(error) => Some(Event::Failed(error)),
            },
            _ => None,
        }
    }

    /// Whether `events` are the reports of what the framework did on the
    /// requests of a run, one after another: the first on `action` in the
    /// state `s`, each further one on the request that answered the report
    /// before it.
    pub open spec fn answers_all(&self, s: RunState, action: Action, events: Seq<Event>) -> bool
        decreases events.len(),
    {
        if events.len() == 0 {
            true
        } else {
            &&& self.reports(action, events[0])
            &&& self.answers_all(next(s, events[0]).0, next(s, events[0]).1, events.skip(1))
        }
    }

    proof fn lemma_one_more(&self, s: RunState, action: Action, events: Seq<Event>, event: Event)
        requires
            self.answers_all(s, action, events),
            self.reports(outcome_of(s, action, events).1, event),
        ensures
            self.answers_all(s, action, events.push(event)),
            outcome_of(s, action, events.push(event)) == next(
                outcome_of(s, action, events).0,
                event,
            ),
        decreases events.len(),
    {
        let longer = events.push(event);
        let (mid, answer) = next(s, longer[0]);
        if events.len() == 0 {
            assert(longer.skip(1) =~= events);
            assert(self.answers_all(mid, answer, events));
            assert(outcome_of(mid, answer, events) == (mid, answer));
        } else {
            self.lemma_one_more(mid, answer, events.skip(1), event);
            assert(longer.skip(1) =~= events.skip(1).push(event));
        }
    }

    /// A release that is driven to its end, with every release reported as
    /// done, ends in the exit with success: each handle that was left has
    /// been asked for once, oldest first, and none is left.
    pub proof fn lemma_driven_release(&self, s: RunState, events: Seq<Event>)
        requires
            consistent(s),
            s.phase == Phase::Releasing,
            self.answers_all(s, Action::Release(s.handles[s.issued - 1]), events),
            !is_request(outcome_of(s, Action::Release(s.handles[s.issued - 1]), events).1),
            forall|i: int| 0 <= i < events.len() ==> events[i] == Event::Completed,
        ensures
            events.len() == s.handles.len() - s.issued + 1,
            outcome_of(s, Action::Release(s.handles[s.issued - 1]), events) == (
                RunState { phase: Phase::Exited, issued: s.handles.len(), ..s },
                Action::Exit(Outcome::Success),
            ),
        decreases s.handles.len() - s.issued,
    {
        let request = Action::Release(s.handles[s.issued - 1]);
        if events.len() == 0 {
            assert(outcome_of(s, request, events) == (s, request));
        } else {
            let (mid, answer) = next(s, events[0]);
            let rest = events.skip(1);
            assert(events[0] == Event::Completed);
            assert(self.answers_all(mid, answer, rest));
            assert(outcome_of(s, request, events) == outcome_of(mid, answer, rest));
            if s.issued < s.handles.len() {
                assert forall|i: int| 0 <= i < rest.len() implies rest[i] == Event::Completed by {
                    assert(rest[i] == events[i + 1]);
                }
                self.lemma_driven_release(mid, rest);
            } else if rest.len() > 0 {
                assert(!self.reports(answer, rest[0]));
            } else {
                assert(outcome_of(mid, answer, rest) == (mid, answer));
            }
        }
    }

    /// Carries a run through its requests to the framework.
    ///
    /// As long as the action that stands is a request to the framework, it
    /// is done and reported to the controller, which answers with the next
    /// action. The run comes back with the first action that is none of the
    /// framework's: to acquire the capability, to watch for the interrupt, to
    /// block, to wait, or to exit.
    pub fn drive(&self, controller: RunController, action: Action) -> (r: (RunController, Action))
        ensures
            !is_request(r.1),
            exists|events: Seq<Event>|
                {
                    &&& self.answers_all(controller@, action, events)
                    &&& (r.0@, r.1) == #[trigger] outcome_of(controller@, action, events)
                },
    {
        let ghost events: Seq<Event> = Seq::empty();
        let mut current = controller;
        let mut pending = action;
        loop
            invariant
                self.answers_all(controller@, action, events),
                (current@, pending) == outcome_of(controller@, action, events),
                events.len() > 0 && is_request(pending) ==> consistent(current@) && awaited(
                    current@,
                    pending,
                ),
            decreases (if events.len() == 0 { 1nat } else { 0nat }), requests_left(current@),
        {
            match self.perform(pending) {
                None => {
                    return (current, pending);
                },
                Some(event) => {
                    proof {
                        self.lemma_one_more(controller@, action, events, event);
                        events = events.push(event);
                    }
                    let (stepped, answer) = current.step(event);
                    current = stepped;
                    pending = answer;
                },
            }
        }
    }
}

} // verus!
