//! When a supervisor goes on, when it waits and when it is done.

use vstd::prelude::*;

use crate::supervisor::error::{SupervisorError, SupervisorExit};
use crate::supervisor::runtime::model::{keys_are_listed, keys_in_order, Core};
use crate::supervisor::runtime::stop_laws::lemma_engaged_are_listed;
use crate::supervisor::runtime::supervision::shutdown::{
    drain_advances, Drain, DrainStage, DrainStep, Modes,
};
use crate::supervisor::runtime::supervision::steps::Move;
use crate::supervisor::shutdown::ShutdownMode;
use crate::time::Duration;

verus! {

/// A supervisor goes on as long as one of its children has not stopped or waits for a
/// restart, or all of them wait for one. Children that were given up do not keep it.
pub proof fn supervisors_finish_only_when_idle(
    state: Core,
    now: Duration,
    exit: SupervisorExit,
    key: usize,
)
    requires
        state.moves(now, Move::Finish(exit)),
    ensures
        state.group_deadline is None,
        state.entries.contains_key(key) && !(state.entries[key].membership is Removed)
            ==> state.entries[key].runtime.state is Stopped
            && state.entries[key].runtime.next_restart_deadline is None,
{
}

/// A supervisor finishes once none of its children runs or waits for a restart, and
/// does nothing else at that point.
pub proof fn idle_supervisors_finish(state: Core, now: Duration, next: Move)
    requires
        state.moves(now, next),
        state.group_deadline is None,
        forall|key: usize| #[trigger]
            state.entries.contains_key(key) && !(state.entries[key].membership is Removed)
                ==> state.entries[key].runtime.state is Stopped
                && state.entries[key].runtime.next_restart_deadline is None,
    ensures
        next is Finish,
{
}

/// A supervisor has failed if a child of its ended for good otherwise than by completing,
/// and has completed if none did.
pub proof fn one_failure_is_enough(
    state: Core,
    now: Duration,
    exit: SupervisorExit,
    key: usize,
)
    requires
        state.moves(now, Move::Finish(exit)),
    ensures
        state.entries.contains_key(key) && !(state.entries[key].membership is Removed) && (
        state.entries[key].terminal_status matches Some(status) && !(status is Completed))
            ==> exit is Failed,
        (forall|other: usize| #[trigger]
            state.entries.contains_key(other) && !(state.entries[other].membership is Removed)
                ==> match state.entries[other].terminal_status {
                Some(status) => status is Completed,
                None => true,
            }) ==> exit is Completed,
{
}

/// A running supervisor does not sit on a restart that is due, be it that of one child or
/// of all, and waits no longer than until the next one is. It waits without an end only
/// when none is pending.
pub proof fn waits_end_at_the_next_restart(
    state: Core,
    now: Duration,
    first: Option<Duration>,
    key: usize,
)
    requires
        state.wf(),
        state.moves(now, Move::Wait(first)),
    ensures
        state.entries.contains_key(key) && state.entries[key].membership is Active ==> (
        state.entries[key].runtime.next_restart_deadline matches Some(deadline) ==> first is Some
            && first->Some_0@ <= deadline@ && (state.state is Running ==> now@ < deadline@)),
        state.group_deadline matches Some(deadline) ==> first is Some && first->Some_0@ <= deadline@
            && (state.state is Running ==> now@ < deadline@),
        first matches Some(until) ==> state.group_deadline == Some(until) || exists|other: usize|
            {
                &&& #[trigger] state.entries.contains_key(other)
                &&& state.entries[other].membership is Active
                &&& state.entries[other].runtime.next_restart_deadline == Some(until)
            },
{
    broadcast use vstd::seq_lib::group_filter_ensures;

    if state.entries.contains_key(key) && state.entries[key].membership is Active
        && state.entries[key].runtime.next_restart_deadline is Some {
        assert(state.awaits_restart(key));
        let is_due = |k: usize| state.is_due(now, k);
        assert(state.order.to_set().contains(key));
        if state.state is Running && is_due(key) {
            assert(state.order[state.order.index_of(key)] == key);
            assert(state.due(now).contains(key));
        }
    }
    if let Some(until) = first {
        if state.group_deadline != Some(until) {
            let other = choose|other: usize| #[trigger]
                state.awaits_restart(other)
                    && state.entries[other].runtime.next_restart_deadline == Some(until);
            assert(state.entries.contains_key(other));
        }
    }
}

/// The children that are restarted are those that belong to the supervisor and whose
/// deadline has come, and no others. That of all comes first.
pub proof fn restarts_are_done_when_due(state: Core, now: Duration, next: Move, key: usize)
    requires
        state.wf(),
        state.moves(now, next),
    ensures
        next matches Move::Restart(keys) ==> (keys@.contains(key) <==> {
            &&& state.entries.contains_key(key)
            &&& state.entries[key].membership is Active
            &&& state.entries[key].runtime.next_restart_deadline matches Some(deadline) && deadline@
                <= now@
        }),
        next is Restart ==> state.state is Running && match state.group_deadline {
            Some(deadline) => now@ < deadline@,
            None => true,
        },
        next is RestartGroup ==> state.state is Running && (state.group_deadline matches Some(
            deadline,
        ) && deadline@ <= now@),
{
    broadcast use vstd::seq_lib::group_filter_ensures;

    if let Move::Restart(keys) = next {
        let is_due = |k: usize| state.is_due(now, k);
        assert(keys@ == state.order.filter(is_due));
        assert(state.order.to_set().contains(key) <==> state.entries.contains_key(key));
        if keys@.contains(key) {
            state.order.lemma_filter_contains_rev(is_due, key);
            let at = keys@.index_of(key);
            assert(is_due(keys@[at]));
        }
        if state.order.contains(key) && is_due(key) {
            assert(state.order[state.order.index_of(key)] == key);
        }
    }
}

/// A child that its supervisor answers for and that has not stopped.
pub open spec fn still_there(state: Core, key: usize) -> bool {
    &&& state.entries.contains_key(key)
    &&& !(state.entries[key].membership is Removed)
    &&& !(state.entries[key].runtime.state is Stopped)
}

/// Once the time of a drain is up, the children that are only ever asked to stop and have
/// not are on record: the record is empty if there is none, and is not if there is one.
pub proof fn drains_record_the_unresponsive(
    state: Core,
    before: Drain,
    now: Duration,
    after: Drain,
    step: DrainStep,
    timed_out: String,
    key: usize,
)
    requires
        state.wf(),
        drain_advances(state, before, now, after, step),
        !(before.stage is Forcing),
        after.stage == (DrainStage::Forcing { timed_out }),
        step is Abort,
    ensures
        still_there(state, key)
            && state.entries[key].runtime.spec.shutdown_policy.mode is Cooperative
            ==> timed_out@.len() > 0,
        (forall|other: usize| #[trigger]
            still_there(state, other)
                ==> !(state.entries[other].runtime.spec.shutdown_policy.mode is Cooperative))
            ==> timed_out@.len() == 0,
{
    let asked = Modes::Only(ShutdownMode::Cooperative);
    if still_there(state, key) && asked.holds(
        state.entries[key].runtime.spec.shutdown_policy.mode,
    ) {
        lemma_engaged_are_listed(state, asked, key);
    }
    if forall|other: usize| #[trigger]
        still_there(state, other)
            ==> !(state.entries[other].runtime.spec.shutdown_policy.mode is Cooperative) {
        lemma_none_engaged(state, asked);
    }
}

proof fn lemma_none_engaged(state: Core, modes: Modes)
    requires
        state.wf(),
        forall|key: usize| #[trigger]
            still_there(state, key) ==> !modes.holds(
                state.entries[key].runtime.spec.shutdown_policy.mode,
            ),
    ensures
        state.engaged_names(modes).len() == 0,
{
    broadcast use vstd::seq_lib::group_filter_ensures;

    keys_are_listed(state);
    let keys = keys_in_order(state.entries);
    let chosen = |key: usize| state.engages(modes, key);
    let listed = state.engaged(modes);
    if listed.len() > 0 {
        let key = listed[0];
        assert(listed.contains(key));
        keys.lemma_filter_contains_rev(chosen, key);
        assert(keys.to_set().contains(key));
        assert(still_there(state, key));
        assert(chosen(listed[0]));
    }
}

/// A drain that had children on record as unresponsive fails and names them. Otherwise a
/// shutdown succeeds, and a restart of all children does if none of the old ones is left:
/// it would have them run twice.
pub proof fn drains_come_to_what_is_left(
    state: Core,
    before: Drain,
    now: Duration,
    after: Drain,
    result: Result<(), SupervisorError>,
    timed_out: String,
    key: usize,
)
    requires
        state.wf(),
        drain_advances(state, before, now, after, DrainStep::Done(result)),
        before.stage == (DrainStage::Forcing { timed_out }),
    ensures
        timed_out@.len() > 0 ==> (result matches Err(SupervisorError::ShutdownTimedOut(names))
            && names@ == timed_out@),
        timed_out@.len() == 0 && before.reason is Shutdown ==> result is Ok,
        before.reason is GroupRestart && still_there(state, key) ==> result is Err,
        timed_out@.len() == 0 && (forall|other: usize| !#[trigger] still_there(state, other))
            ==> result is Ok,
{
    if still_there(state, key) {
        lemma_engaged_are_listed(state, Modes::All, key);
    }
    if forall|other: usize| !#[trigger] still_there(state, other) {
        lemma_none_engaged(state, Modes::All);
    }
}

} // verus!
