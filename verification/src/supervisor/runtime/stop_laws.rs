//! What holds of a supervisor that has stopped.

use vstd::prelude::*;

use crate::supervisor::error::{SupervisorError, SupervisorExit};
use crate::supervisor::handle::{
    every_wait_gives_one_result, wait_course, wait_gives, SupervisorResult, WaitEvent, WaitState,
};
use crate::supervisor::runtime::model::{keys_are_listed, keys_in_order, Core};
use crate::supervisor::runtime::supervision::exits::exit_taken;
use crate::supervisor::runtime::supervision::shutdown::{
    drain_advances, forces, Drain, DrainStage, DrainStep, Modes,
};
use crate::supervisor::runtime::supervision::stop::{
    stop_advances, stop_begins, Stop, StopCause, StopStep,
};
use crate::supervisor::runtime::supervision::Publication;
use crate::supervisor::shutdown::ShutdownMode;
use crate::text::joined;
use crate::time::Duration;

verus! {

/// One step of a stop.
pub ghost struct StopMove {
    /// The states since the step before: one more for each task that was
    /// reported to have ended.
    pub reports: Seq<Core>,
    /// When the step was taken.
    pub now: Duration,
    /// What was unsent before the step.
    pub unsent_before: Seq<Publication>,
    /// How far the stop has got by the step.
    pub stop: Stop,
    /// What comes next.
    pub step: StopStep,
    /// The state after the step.
    pub state: Core,
    /// What is unsent after the step.
    pub unsent_after: Seq<Publication>,
}

/// Whether the end of a task leads from one state to the other.
pub open spec fn some_exit(before: Core, after: Core) -> bool {
    exists|task: nat| exit_taken(before, task, after)
}

/// Whether the ends of tasks lead from each state to the next.
pub open spec fn only_exits(states: Seq<Core>) -> bool {
    &&& states.len() > 0
    &&& forall|i: int|
        0 <= i < states.len() - 1 ==> some_exit(#[trigger] states[i], states[i + 1])
}

/// Whether `after` is the step of a stop that follows `before`.
pub open spec fn stop_follows(before: StopMove, after: StopMove) -> bool {
    &&& !(before.step is Done)
    &&& only_exits(after.reports)
    &&& after.reports[0] == before.state
    &&& stop_advances(
        after.reports.last(),
        after.unsent_before,
        before.stop,
        after.now,
        after.stop,
        after.step,
        after.state,
        after.unsent_after,
    )
}

/// Whether `moves` are the steps of a stop, from where every child has been asked
/// to stop.
pub open spec fn stop_course(cause: StopCause, moves: Seq<StopMove>) -> bool {
    &&& moves.len() > 0
    &&& moves[0].state.wf()
    &&& stop_begins(moves[0].state, cause, moves[0].stop, moves[0].step)
    &&& forall|i: int| 0 < i < moves.len() ==> stop_follows(moves[i - 1], #[trigger] moves[i])
}

/// Whether the task of the child under `key` was aborted in the course of a stop.
pub open spec fn aborted_in(moves: Seq<StopMove>, key: usize) -> bool {
    exists|i: int|
        0 <= i < moves.len() && ((#[trigger] moves[i]).step matches StopStep::Abort(keys)
            && keys@.contains(key))
}

/// Whether the child under `key` may have a task that its supervisor still
/// answers for.
pub open spec fn lingers(state: Core, key: usize) -> bool {
    state.entries.contains_key(key) && state.entries[key].engaged()
}

/// Whether the children that linger did so before, under the same policies.
pub open spec fn dwindled(before: Core, after: Core) -> bool {
    forall|key: usize| #[trigger]
        lingers(after, key) ==> lingers(before, key) && after.entries[key].runtime.spec
            == before.entries[key].runtime.spec
}

proof fn lemma_exit_dwindles(before: Core, task: nat, after: Core)
    requires
        before.wf(),
        exit_taken(before, task, after),
    ensures
        after.wf(),
        dwindled(before, after),
{
    let meta = before.tasks[task];
    let rest = before.without_task(task);
    before.without_task_is_sound(task);
    if before.is_current(meta) {
        if before.entries[meta.key].membership is Active {
            let status = choose|status| after == #[trigger] rest.exited(meta.key, status);
            rest.exited_is_wf(meta.key, status);
        } else {
            rest.vacated_is_wf(meta.key);
        }
    }
    assert forall|key: usize| #[trigger] lingers(after, key) implies lingers(before, key)
        && after.entries[key].runtime.spec == before.entries[key].runtime.spec by {}
}

proof fn lemma_exits_dwindle(states: Seq<Core>, at: int)
    requires
        only_exits(states),
        states[0].wf(),
        0 <= at < states.len(),
    ensures
        states[at].wf(),
        dwindled(states[0], states[at]),
    decreases at,
{
    if at > 0 {
        lemma_exits_dwindle(states, at - 1);
        let before = states[at - 1];
        assert(some_exit(before, states[at - 1 + 1]));
        let task = choose|task: nat| exit_taken(before, task, states[at]);
        lemma_exit_dwindles(before, task, states[at]);
        assert forall|key: usize| #[trigger] lingers(states[at], key) implies lingers(
            states[0],
            key,
        ) && states[at].entries[key].runtime.spec == states[0].entries[key].runtime.spec by {
            assert(lingers(before, key));
        }
    }
}

proof fn lemma_stop_stays_wf(cause: StopCause, moves: Seq<StopMove>, at: int)
    requires
        stop_course(cause, moves),
        0 <= at < moves.len(),
    ensures
        moves[at].state.wf(),
        moves[at].stop.drain.reason is Shutdown || moves[at].step is Done,
        moves[at].stop.cause == cause || moves[at].step is Done,
        at > 0 ==> moves[at].reports.last().wf(),
    decreases at,
{
    if at > 0 {
        lemma_stop_stays_wf(cause, moves, at - 1);
        assert(stop_follows(moves[at - 1], moves[at]));
        let reports = moves[at].reports;
        lemma_exits_dwindle(reports, reports.len() - 1);
        reports.last().wf_goes_by_children(moves[at].state);
    }
}

/// A list of names that are not empty is not empty unless there are none.
proof fn lemma_names_show(names: Seq<Seq<char>>, separator: Seq<char>)
    requires
        forall|i: int| 0 <= i < names.len() ==> (#[trigger] names[i]).len() > 0,
    ensures
        joined(names, separator).len() == 0 ==> names.len() == 0,
{
    if names.len() == 1 {
        assert(names[0].len() > 0);
    } else if names.len() > 1 {
        assert(names[names.len() - 1].len() > 0);
    }
}

/// The engaged children of some shutdown modes are listed by their slots, and
/// their names are empty only if there are none.
pub proof fn lemma_engaged_are_listed(state: Core, modes: Modes, key: usize)
    requires
        state.wf(),
        lingers(state, key),
        modes.holds(state.entries[key].runtime.spec.shutdown_policy.mode),
    ensures
        state.engaged(modes).contains(key),
        state.engaged_names(modes).len() > 0,
{
    broadcast use vstd::seq_lib::group_filter_ensures;

    keys_are_listed(state);
    let keys = keys_in_order(state.entries);
    let chosen = |k: usize| state.engages(modes, k);
    assert(keys.to_set().contains(key));
    let at = keys.index_of(key);
    assert(keys.filter(chosen).contains(keys[at]));
    let listed = state.engaged(modes);
    let names = state.ids_of(listed);
    assert forall|i: int| 0 <= i < names.len() implies (#[trigger] names[i]).len() > 0 by {
        keys.lemma_filter_contains_rev(chosen, listed[i]);
        assert(keys.to_set().contains(listed[i]));
        assert(state.entries.contains_key(listed[i]));
    }
    lemma_names_show(names, ", "@);
    assert(listed.len() > 0);
}

/// A drain that ends without an error after the grace period leaves no child
/// behind that may have a task.
proof fn lemma_nobody_forced(state: Core, after: Drain, step: DrainStep, before: Drain, key: usize)
    requires
        state.wf(),
        forces(state, before.reason, after, step),
        step is Done,
    ensures
        !lingers(state, key),
{
    if lingers(state, key) {
        lemma_engaged_are_listed(state, Modes::All, key);
    }
}

/// A supervisor that was asked to stop and reports an orderly end has waited for
/// every child, but for those whose tasks were aborted and have not ended yet:
/// these are the only ones that may outlive it. None of them is a child that is
/// only ever asked to stop. If no task had to be aborted, no child is left.
pub proof fn orderly_stops_leave_only_aborted_children(
    cause: StopCause,
    moves: Seq<StopMove>,
    exit: SupervisorExit,
)
    requires
        stop_course(cause, moves),
        moves.last().step == StopStep::Done(Ok(exit)),
    ensures
        cause is Requested,
        exit is Shutdown,
        forall|key: usize| #[trigger]
            lingers(moves.last().state, key) ==> aborted_in(moves, key) && !(
            moves.last().state.entries[key].runtime.spec.shutdown_policy.mode is Cooperative),
        (forall|i: int|
            0 <= i < moves.len() ==> ((#[trigger] moves[i]).step matches StopStep::Abort(keys)
                ==> keys@.len() == 0)) ==> forall|key: usize|
            !#[trigger] lingers(moves.last().state, key),
{
    let last = moves.len() - 1;
    let end = moves[last];
    let before = moves[last - 1];
    assert(stop_follows(before, end));
    lemma_stop_stays_wf(cause, moves, last);
    lemma_stop_stays_wf(cause, moves, last - 1);
    let reached = end.reports.last();
    lemma_exits_dwindle(end.reports, end.reports.len() - 1);
    let (drain, drained) = choose|drain: Drain, drained: DrainStep| #[trigger]
        drain_advances(reached, before.stop.drain, end.now, drain, drained) && match drained {
            DrainStep::Abort(keys) => end.step == StopStep::Abort(keys),
            DrainStep::AwaitExit(deadline) => end.step == StopStep::AwaitExit(deadline),
            DrainStep::Done(Err(error)) => end.step == StopStep::Done(Err(error)),
            DrainStep::Done(Ok(())) => end.step == StopStep::Done(before.stop.cause.outcome())
                && end.state == reached.ended(before.stop.cause.last_exit()),
        };
    assert(drained is Done);
    assert forall|key: usize| #[trigger] lingers(end.state, key) implies aborted_in(moves, key) && !(
    end.state.entries[key].runtime.spec.shutdown_policy.mode is Cooperative) by {
        assert(lingers(reached, key));
        match before.stop.drain.stage {
            DrainStage::Aborting { grace } => {
                if reached.live == 0 {
                    assert(reached.backed(key));
                    let task = choose|task: nat| reached.works_for(task, key);
                    assert(reached.tasks.dom().contains(task));
                    assert(reached.tasks.dom() =~= Set::empty());
                } else {
                    lemma_nobody_forced(reached, drain, drained, before.stop.drain, key);
                }
            },
            DrainStage::Waiting { deadline } => {
                lemma_nobody_forced(reached, drain, drained, before.stop.drain, key);
            },
            DrainStage::Forcing { timed_out } => {
                let earlier = moves[last - 2];
                assert(stop_follows(earlier, before));
                let state = before.reports.last();
                assert(before.state == state);
                assert(lingers(state, key));
                let cooperative = Modes::Only(ShutdownMode::Cooperative);
                let others = Modes::AllBut(ShutdownMode::Cooperative);
                assert(timed_out@ == state.engaged_names(cooperative));
                if cooperative.holds(state.entries[key].runtime.spec.shutdown_policy.mode) {
                    lemma_engaged_are_listed(state, cooperative, key);
                }
                lemma_engaged_are_listed(state, others, key);
                assert(before.step matches StopStep::Abort(keys) && keys@.contains(key));
                assert(moves[last - 1].step is Abort);
            },
        }
    }
    if forall|i: int|
        0 <= i < moves.len() ==> ((#[trigger] moves[i]).step matches StopStep::Abort(keys)
            ==> keys@.len() == 0) {
        assert forall|key: usize| !#[trigger] lingers(end.state, key) by {
            if lingers(end.state, key) {
                let i = choose|i: int|
                    0 <= i < moves.len() && ((#[trigger] moves[i]).step matches StopStep::Abort(keys)
                        && keys@.contains(key));
                assert(moves[i].step is Abort);
            }
        }
    }
}

/// How the run of a supervisor can end.
pub ghost enum RunEnd {
    /// Nothing ran any more and nothing was about to.
    Idle(Core),
    /// It was stopped, in these steps.
    Stopped(StopCause, Seq<StopMove>),
}

/// Whether a run that ends like this returns `result` and leaves the supervisor in
/// the given state.
pub open spec fn run_ends(end: RunEnd, result: SupervisorResult, state: Core) -> bool {
    match end {
        RunEnd::Idle(before) => {
            let exit = if before.has_failed() {
                SupervisorExit::Failed
            } else {
                SupervisorExit::Completed
            };
            before.wf() && before.idle() && result == Ok::<_, SupervisorError>(exit) && state
                == before.ended(exit)
        },
        RunEnd::Stopped(cause, moves) => stop_course(cause, moves) && moves.last().step
            == StopStep::Done(result) && state == moves.last().state,
    }
}

/// Whoever waits for a supervisor and learns of an orderly end does so after every
/// child was waited for. Only a stop leaves children behind that may still have a
/// task, and only those that it aborted; they are none that are only ever asked to
/// stop.
pub proof fn successful_waits_come_after_the_children(
    events: Seq<WaitEvent>,
    waits: Seq<WaitState>,
    asked: int,
    at: int,
    exit: SupervisorExit,
    end: RunEnd,
    returned: SupervisorResult,
    state: Core,
)
    requires
        wait_course(events, waits),
        wait_gives(waits, asked, at, Ok(exit)),
        waits.last().ended matches Some(Ok(result)) ==> result == returned,
        run_ends(end, returned, state),
    ensures
        returned == Ok::<_, SupervisorError>(exit),
        forall|key: usize| #[trigger]
            lingers(state, key) ==> {
                &&& end matches RunEnd::Stopped(_, moves) && aborted_in(moves, key)
                &&& !(state.entries[key].runtime.spec.shutdown_policy.mode is Cooperative)
            },
{
    every_wait_gives_one_result(events, waits, asked, at, Ok(exit), asked, at, Ok(exit));
    if let RunEnd::Stopped(cause, moves) = end {
        orderly_stops_leave_only_aborted_children(cause, moves, exit);
    }
}

} // verus!
