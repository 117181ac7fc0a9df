//! Whole runs of the controller: what holds of every sequence of events, and
//! what the two triggers lead to.

use vstd::prelude::*;
use crate::controller::{
    acquisition, consistent, initial, next, Action, Event, Phase, RunState, ASSERTION_COUNT,
};
use crate::duration::DurationSpec;
use crate::error::Outcome;
use crate::power::Handle;

verus! {

/// The state after all of `events`, and the actions that answered them, in order.
pub open spec fn run(s: RunState, events: Seq<Event>) -> (RunState, Seq<Action>)
    decreases events.len(),
{
    if events.len() == 0 {
        (s, Seq::empty())
    } else {
        let (mid, action) = next(s, events[0]);
        let (end, actions) = run(mid, events.skip(1));
        (end, seq![action] + actions)
    }
}

/// The handles that `actions` ask to release, in order.
pub open spec fn releases(actions: Seq<Action>) -> Seq<Handle>
    decreases actions.len(),
{
    if actions.len() == 0 {
        Seq::empty()
    } else {
        match actions[0] {
            Action::Release(handle) => seq![handle] + releases(actions.skip(1)),
            _ => releases(actions.skip(1)),
        }
    }
}

/// `n` reports of a completed action.
pub open spec fn completions(n: nat) -> Seq<Event> {
    Seq::new(n, |i: int| Event::Completed)
}

/// A release of each of `handles`, oldest first, and then the exit with success.
pub open spec fn release_all_and_exit(handles: Seq<Handle>) -> Seq<Action> {
    Seq::new(handles.len(), |i: int| Action::Release(handles[i])).push(
        Action::Exit(Outcome::Success),
    )
}

/// Whether `event` triggers the release in the state `s`: an interrupt in a
/// run that has not begun to release, or the end of a bounded wait.
pub open spec fn triggers(s: RunState, event: Event) -> bool {
    &&& s.phase != Phase::Exited
    &&& s.phase != Phase::Releasing
    &&& (event == Event::Interrupted || (event == Event::Elapsed && s.phase == Phase::Held
        && s.duration != DurationSpec::Unbounded))
}

/// Every run starts in a consistent state.
pub proof fn lemma_initial_consistent(duration: DurationSpec)
    ensures
        consistent(initial(duration).0),
{
}

/// The reports of a start on which nothing fails: the capability is
/// acquired, each creation gives its handle, and the watcher is armed.
pub open spec fn smooth_start(handles: Seq<Handle>) -> Seq<Event> {
    seq![Event::Completed] + Seq::new(handles.len(), |i: int| Event::Created(handles[i])) + seq![
        Event::Completed,
    ]
}

/// The actions that answer a start on which nothing fails: one acquisition
/// after another, then the watcher, then the wait.
pub open spec fn smooth_start_actions(duration: DurationSpec) -> Seq<Action> {
    seq![
        acquisition(0),
        acquisition(1),
        acquisition(2),
        acquisition(3),
        acquisition(4),
        Action::WatchInterrupt,
        Action::Block(duration),
    ]
}

/// A start on which nothing fails asks for the five assertions in their
/// order, then for the watcher, and then blocks for the duration, holding
/// the five handles as they were given.
pub proof fn lemma_smooth_start_is_held(duration: DurationSpec, handles: Seq<Handle>)
    requires
        duration != DurationSpec::Seconds(0),
        handles.len() == ASSERTION_COUNT,
    ensures
        initial(duration).1 == Action::AcquireCapability,
        run(initial(duration).0, smooth_start(handles)).1 == smooth_start_actions(duration),
        run(initial(duration).0, smooth_start(handles)).0 == (RunState {
            phase: Phase::Held,
            handles,
            ..initial(duration).0
        }),
{
    let events = smooth_start(handles);
    let s0 = initial(duration).0;
    let (s1, a1) = next(s0, events[0]);
    let (s2, a2) = next(s1, events[1]);
    let (s3, a3) = next(s2, events[2]);
    let (s4, a4) = next(s3, events[3]);
    let (s5, a5) = next(s4, events[4]);
    let (s6, a6) = next(s5, events[5]);
    let (s7, a7) = next(s6, events[6]);
    assert(s7.handles =~= handles);
    let e1 = events.skip(1);
    let e2 = e1.skip(1);
    let e3 = e2.skip(1);
    let e4 = e3.skip(1);
    let e5 = e4.skip(1);
    let e6 = e5.skip(1);
    let e7 = e6.skip(1);
    assert(run(s7, e7) == (s7, Seq::<Action>::empty()));
    assert(run(s6, e6).1 =~= seq![a7]);
    assert(run(s5, e5).1 =~= seq![a6, a7]);
    assert(run(s4, e4).1 =~= seq![a5, a6, a7]);
    assert(run(s3, e3).1 =~= seq![a4, a5, a6, a7]);
    assert(run(s2, e2).1 =~= seq![a3, a4, a5, a6, a7]);
    assert(run(s1, e1).1 =~= seq![a2, a3, a4, a5, a6, a7]);
}

/// No run ever blocks for zero seconds.
pub proof fn lemma_never_blocks_for_nothing(s: RunState, event: Event)
    requires
        consistent(s),
    ensures
        next(s, event).1 != Action::Block(DurationSpec::Seconds(0)),
{
}

/// A step keeps the state consistent. It never takes a handle away, and it
/// adds none to a set that counts as released, which stays released. It asks
/// for a release only of the oldest handle not asked for yet.
pub proof fn lemma_step(s: RunState, event: Event)
    requires
        consistent(s),
    ensures
        consistent(next(s, event).0),
        s.handles == next(s, event).0.handles.take(s.handles.len() as int),
        s.handles.len() <= next(s, event).0.handles.len(),
        s.released ==> next(s, event).0.handles == s.handles,
        s.released ==> next(s, event).0.released,
        match next(s, event).1 {
            Action::Release(handle) => {
                &&& next(s, event).0.issued == s.issued + 1
                &&& handle == next(s, event).0.handles[s.issued as int]
            },
            _ => next(s, event).0.issued == s.issued,
        },
{
}

/// Every state of a run is consistent.
pub proof fn lemma_run_consistent(s: RunState, events: Seq<Event>)
    requires
        consistent(s),
    ensures
        consistent(run(s, events).0),
    decreases events.len(),
{
    if events.len() > 0 {
        lemma_step(s, events[0]);
        lemma_run_consistent(next(s, events[0]).0, events.skip(1));
    }
}

/// No handle is released twice, whatever the events and their order.
///
/// The releases that a run asks for are a stretch of the set's handles,
/// oldest first, that starts where the releases asked for before left off:
/// each position of the set is asked for once at most, and none is skipped.
pub proof fn lemma_releases_in_order(s: RunState, events: Seq<Event>)
    requires
        consistent(s),
    ensures
        s.issued <= run(s, events).0.issued <= run(s, events).0.handles.len(),
        s.handles.len() <= run(s, events).0.handles.len(),
        s.handles == run(s, events).0.handles.take(s.handles.len() as int),
        releases(run(s, events).1) == run(s, events).0.handles.subrange(
            s.issued as int,
            run(s, events).0.issued as int,
        ),
    decreases events.len(),
{
    let (end, actions) = run(s, events);
    if events.len() > 0 {
        let (mid, action) = next(s, events[0]);
        let rest = run(mid, events.skip(1)).1;
        lemma_step(s, events[0]);
        lemma_releases_in_order(mid, events.skip(1));
        assert(actions.skip(1) =~= rest);
        if action is Release {
            assert(releases(actions) =~= end.handles.subrange(s.issued as int, end.issued as int));
        }
    }
}

/// Once a release is under way and each release succeeds, the rest of the
/// handles are released, oldest first, and the run exits with success.
pub proof fn lemma_release_completes(s: RunState)
    requires
        consistent(s),
        s.phase == Phase::Releasing,
    ensures
        run(s, completions((s.handles.len() - s.issued + 1) as nat)).1 == release_all_and_exit(
            s.handles.skip(s.issued as int),
        ),
        run(s, completions((s.handles.len() - s.issued + 1) as nat)).0 == (RunState {
            phase: Phase::Exited,
            issued: s.handles.len(),
            ..s
        }),
    decreases s.handles.len() - s.issued,
{
    let count = (s.handles.len() - s.issued + 1) as nat;
    let events = completions(count);
    let mid = next(s, events[0]).0;
    assert(events.skip(1) =~= completions((count - 1) as nat));
    if s.issued < s.handles.len() {
        lemma_release_completes(mid);
    } else {
        assert(run(mid, events.skip(1)).1 =~= Seq::<Action>::empty());
    }
}

/// An interrupt, at any point after the first assertion has been created,
/// has every handle created so far released once and the run exit with
/// code 0.
///
/// The state is any that a run passes through before a release has begun,
/// with at least one handle. The events are the interrupt and then, for the
/// release of each handle, the report that it succeeded. The actions that
/// answer them are the release of each handle, oldest first, and the exit
/// with success.
pub proof fn lemma_interrupt_releases_all(s: RunState)
    requires
        consistent(s),
        s.phase != Phase::Exited,
        s.phase != Phase::Releasing,
        s.handles.len() >= 1,
    ensures
        run(s, seq![Event::Interrupted] + completions(s.handles.len())).1 == release_all_and_exit(
            s.handles,
        ),
        releases(run(s, seq![Event::Interrupted] + completions(s.handles.len())).1) == s.handles,
        run(s, seq![Event::Interrupted] + completions(s.handles.len())).0.phase == Phase::Exited,
        run(s, seq![Event::Interrupted] + completions(s.handles.len())).0.outcome.code() == 0,
{
    lemma_trigger_releases_all(s, Event::Interrupted);
}

/// Either trigger, the interrupt or the end of a bounded wait, has every
/// handle released once and the run exit with success, where each release
/// succeeds.
pub proof fn lemma_trigger_releases_all(s: RunState, trigger: Event)
    requires
        consistent(s),
        triggers(s, trigger),
    ensures
        run(s, seq![trigger] + completions(s.handles.len())).1 == release_all_and_exit(s.handles),
        releases(run(s, seq![trigger] + completions(s.handles.len())).1) == s.handles,
        run(s, seq![trigger] + completions(s.handles.len())).0.phase == Phase::Exited,
        run(s, seq![trigger] + completions(s.handles.len())).0.outcome == Outcome::Success,
        run(s, seq![trigger] + completions(s.handles.len())).0.handles == s.handles,
{
    let events = seq![trigger] + completions(s.handles.len());
    let (mid, action) = next(s, events[0]);
    assert(events.skip(1) =~= completions(s.handles.len()));
    if s.handles.len() == 0 {
        assert(run(mid, events.skip(1)).1 =~= Seq::<Action>::empty());
    } else {
        lemma_release_completes(mid);
        assert(seq![action] + release_all_and_exit(mid.handles.skip(1)) =~= release_all_and_exit(
            s.handles,
        ));
    }
    lemma_releases_in_order(s, events);
}

/// A run over two stretches of events is the run over the first, and from
/// where that ends the run over the second.
pub proof fn lemma_run_append(s: RunState, first: Seq<Event>, second: Seq<Event>)
    ensures
        run(s, first + second).0 == run(run(s, first).0, second).0,
        run(s, first + second).1 == run(s, first).1 + run(run(s, first).0, second).1,
    decreases first.len(),
{
    if first.len() > 0 {
        assert((first + second).skip(1) =~= first.skip(1) + second);
        lemma_run_append(next(s, first[0]).0, first.skip(1), second);
    }
}

/// The releases of two stretches of actions are those of the first and then
/// those of the second.
pub proof fn lemma_releases_append(first: Seq<Action>, second: Seq<Action>)
    ensures
        releases(first + second) == releases(first) + releases(second),
    decreases first.len(),
{
    if first.len() > 0 {
        assert((first + second).skip(1) =~= first.skip(1) + second);
        lemma_releases_append(first.skip(1), second);
    }
}

/// Take any run from its start, whatever its duration, up to any point at
/// which at least one assertion has been created and no release has begun,
/// and let an interrupt arrive there. Over the whole run, from the start to
/// the exit, the handles released are the handles created, each once and
/// oldest first, and the run exits with code 0.
pub proof fn lemma_interrupt_at_any_point(duration: DurationSpec, before: Seq<Event>)
    requires
        run(initial(duration).0, before).0.phase != Phase::Exited,
        run(initial(duration).0, before).0.phase != Phase::Releasing,
        run(initial(duration).0, before).0.handles.len() >= 1,
    ensures
        ({
            let created = run(initial(duration).0, before).0.handles;
            let events = before + (seq![Event::Interrupted] + completions(created.len()));
            let (end, actions) = run(initial(duration).0, events);
            &&& releases(actions) == created
            &&& actions.last() == Action::Exit(Outcome::Success)
            &&& end.phase == Phase::Exited
            &&& end.outcome.code() == 0
            &&& end.handles == created
        }),
{
    let start = initial(duration).0;
    let s = run(start, before).0;
    let after = seq![Event::Interrupted] + completions(s.handles.len());
    lemma_run_consistent(start, before);
    lemma_releases_in_order(start, before);
    lemma_trigger_releases_all(s, Event::Interrupted);
    lemma_run_append(start, before, after);
    lemma_releases_append(run(start, before).1, run(s, after).1);
}

/// Once a run blocks, its state changes by a trigger or by a failure and by
/// nothing else.
pub proof fn lemma_held_changes_by_trigger_only(s: RunState, event: Event)
    requires
        s.phase == Phase::Held,
        !triggers(s, event),
        !(event is Failed),
    ensures
        next(s, event).0 == s,
{
}

/// A run without a bounded duration does not end by the clock: however often
/// its wait is reported over, it stays held and goes back to blocking.
pub proof fn lemma_unbounded_outlasts_the_clock(s: RunState)
    requires
        consistent(s),
        s.phase == Phase::Held,
        s.duration == DurationSpec::Unbounded,
    ensures
        next(s, Event::Elapsed) == (s, Action::Block(DurationSpec::Unbounded)),
{
}

/// A trigger that comes second changes nothing: while a release is under
/// way, an interrupt and the end of the wait are both answered by `Wait`.
pub proof fn lemma_second_trigger_waits(s: RunState, event: Event)
    requires
        s.phase == Phase::Releasing,
        event == Event::Interrupted || event == Event::Elapsed,
    ensures
        next(s, event) == (s, Action::Wait),
{
}

/// A run that has exited asks for nothing more: every event is answered by
/// the exit it ended with, and the state stays as it is.
pub proof fn lemma_exit_is_final(s: RunState, events: Seq<Event>)
    requires
        s.phase == Phase::Exited,
    ensures
        run(s, events).0 == s,
        run(s, events).1 == Seq::new(events.len(), |i: int| Action::Exit(s.outcome)),
    decreases events.len(),
{
    if events.len() > 0 {
        lemma_exit_is_final(s, events.skip(1));
    }
}

/// A duration of zero seconds is over at once: the first action is the exit
/// with code 0, and whatever is reported afterwards, the run creates no
/// assertion and never blocks.
pub proof fn lemma_zero_duration_exits_at_once(events: Seq<Event>)
    ensures
        initial(DurationSpec::Seconds(0)).1 == Action::Exit(Outcome::Success),
        initial(DurationSpec::Seconds(0)).0.phase == Phase::Exited,
        initial(DurationSpec::Seconds(0)).0.handles.len() == 0,
        Outcome::Success.code() == 0,
        forall|i: int|
            0 <= i < events.len() ==> #[trigger] run(initial(DurationSpec::Seconds(0)).0, events).1[i]
                == Action::Exit(Outcome::Success),
        run(initial(DurationSpec::Seconds(0)).0, events).1.len() == events.len(),
{
    lemma_exit_is_final(initial(DurationSpec::Seconds(0)).0, events);
}

} // verus!
