//! What holds of a supervisor across its steps.

use tokio_util::sync::CancellationToken;
use vstd::prelude::*;

use crate::supervisor::child::ChildSpecInner;
use crate::supervisor::error::{ControlError, SupervisorError};
use crate::supervisor::event::{ExitStatusView, SupervisorEvent};
use crate::supervisor::handle::ControlEndpoint;
use crate::supervisor::runtime::child_runtime::{ChildEntry, ChildRuntime, RuntimeChildState};
use crate::supervisor::runtime::model::{
    keys_in_order, next_u64, running_slots, Core, SupervisorState, TaskMeta,
};
use crate::supervisor::runtime::supervision::restarts::{restart_planned, RestartPlan};
use crate::supervisor::runtime::supervision::shutdown::{
    drain_advances, Drain, DrainStage, DrainStep, Modes,
};
use crate::supervisor::runtime::supervision::spawn::{starts, SpawnPlan};
use crate::supervisor::shutdown::ShutdownMode;
use crate::time::Duration;

verus! {

/// Generations tell incarnations apart: each start of a child that has been
/// started before has a higher generation, as long as there is one.
pub proof fn generations_grow(before: Core, key: usize)
    requires
        before.entries[key].runtime.has_started,
        before.entries[key].runtime.generation < u64::MAX,
    ensures
        before.spawned(key).entries[key].runtime.generation
            == before.entries[key].runtime.generation + 1,
{
}

/// Starts are numbered: the first start of a child has generation zero and none
/// before it, each later one the next generation and that of the child before.
/// The child's context, its slot and the event by which the start is made known
/// all have that generation.
pub proof fn starts_are_numbered(
    before: Core,
    group: CancellationToken,
    key: usize,
    plan: SpawnPlan,
)
    requires
        before.wf(),
        before.entries.contains_key(key),
        starts(plan, before, group, key),
    ensures
        !before.entries[key].runtime.has_started ==> plan.old_generation is None && plan.generation
            == 0,
        before.entries[key].runtime.has_started ==> plan.old_generation == Some(
            before.entries[key].runtime.generation,
        ) && plan.generation == next_u64(before.entries[key].runtime.generation),
        plan.context.generation == plan.generation,
        before.spawned(key).entries[key].runtime.generation == plan.generation,
        before.spawned(key).entries[key].runtime.has_started,
        before.entries[key].start_events()[0] == (SupervisorEvent::ChildStarted {
            id: before.entries[key].id,
            generation: plan.generation,
        }),
{
}

/// A request to take a child in that waits for room is never answered that the
/// control plane is busy.
pub proof fn waiting_requests_are_never_busy<C>(
    before: Core,
    spec: ChildSpecInner,
    reply: Option<Result<(), ControlError>>,
)
    requires
        reply matches Some(Err(error)) ==> before.refuses(spec, error),
    ensures
        !(ControlEndpoint::<C>::answered_as(reply) matches Err(ControlError::Busy)),
{
}

/// A task that a later incarnation of its child has superseded is not mistaken
/// for that of the child again.
pub proof fn superseded_tasks_are_stale(before: Core, meta: TaskMeta)
    requires
        before.is_current(meta),
        before.entries[meta.key].runtime.has_started,
        before.entries[meta.key].runtime.generation < u64::MAX,
    ensures
        !before.spawned(meta.key).is_current(meta),
{
}

/// The new task of a child is that of its present incarnation.
pub proof fn new_tasks_are_current(before: Core, key: usize)
    requires
        before.wf(),
        before.entries.contains_key(key),
    ensures
        before.spawned(key).tasks.contains_key(before.next_task),
        before.spawned(key).is_current(before.spawned(key).tasks[before.next_task]),
        before.spawned(key).tasks[before.next_task].key == key,
{
}

/// With one-for-one supervision, neither the end of a child nor the decision
/// about it nor its restart touches any other child.
pub proof fn one_for_one_spares_siblings(
    before: Core,
    key: usize,
    status: ExitStatusView,
    failure: bool,
    now: Duration,
    random: u128,
    plan: RestartPlan,
    planned: Core,
    sibling: usize,
)
    requires
        before.strategy is OneForOne,
        sibling != key,
        restart_planned(before.exited(key, status), key, failure, now, random, plan, planned),
    ensures
        planned.entries[sibling] == before.entries[sibling],
        planned.spawned(key).entries[sibling] == before.entries[sibling],
        planned.group_deadline == before.group_deadline,
{
}

/// With one-for-all supervision, a child is never restarted on its own: the
/// decision to restart it is one to restart all.
pub proof fn one_for_all_restarts_together(
    before: Core,
    key: usize,
    failure: bool,
    now: Duration,
    random: u128,
    delay: Duration,
    planned: Core,
)
    requires
        before.strategy is OneForAll,
        restart_planned(before, key, failure, now, random, RestartPlan::Scheduled(delay), planned),
    ensures
        planned.group_deadline is Some,
        planned.entries[key].runtime.next_restart_deadline is None,
{
}

/// Restarting a group starts each of its children once, and no other.
pub proof fn each_is_started_once(before: Core, keys: Seq<usize>)
    requires
        keys.no_duplicates(),
    ensures
        forall|key: usize| #[trigger]
            before.spawned_each(keys).entries[key] == if keys.contains(key) {
                before.entries[key].started()
            } else {
                before.entries[key]
            },
    decreases keys.len(),
{
    if keys.len() > 0 {
        let rest = keys.drop_last();
        let last = keys.last();
        each_is_started_once(before, rest);
        assert(!rest.contains(last)) by {
            if rest.contains(last) {
                let i = rest.index_of(last);
                assert(keys[i] == keys[keys.len() - 1]);
            }
        }
        assert forall|key: usize| #[trigger]
            before.spawned_each(keys).entries[key] == if keys.contains(key) {
                before.entries[key].started()
            } else {
                before.entries[key]
            } by {
            assert(before.spawned_each(rest).entries[key] == if rest.contains(key) {
                before.entries[key].started()
            } else {
                before.entries[key]
            });
            if rest.contains(key) {
                let i = rest.index_of(key);
                assert(keys[i] == key);
            }
            if keys.contains(key) && key != last {
                let i = keys.index_of(key);
                assert(rest[i] == key);
            }
            assert(keys[keys.len() - 1] == last);
        }
    }
}

/// A shutdown goes before any restart: once a supervisor is stopping, no restart
/// is due, be it of one child or of all, however long it was pending.
pub proof fn shutdown_goes_before_restarts(before: Core, now: Duration)
    ensures
        ({
            let stopping = Core { state: SupervisorState::Stopping, ..before.cancelled() };
            stopping.due(now).len() == 0 && !stopping.group_due(now)
        }),
{
}

/// A child that is on its way out is neither restarted on its own nor with the
/// others.
pub proof fn leaving_children_are_not_restarted(state: Core, key: usize, now: Duration)
    requires
        !(state.entries[key].membership is Active),
    ensures
        !state.due(now).contains(key),
        !state.respawning().contains(key),
{
    lemma_filtered(state.order, |k: usize| state.is_due(now, k), key);
    lemma_filtered(state.order, |k: usize| state.respawns(k), key);
}

/// A temporary child runs at most once: its supervisor restarts it neither on
/// its own nor with the others, now or at any time.
pub proof fn temporary_children_run_once(state: Core, key: usize, now: Duration)
    requires
        state.wf(),
        state.entries.contains_key(key),
        state.entries[key].runtime.spec.restart is Temporary,
    ensures
        !state.awaits_restart(key),
        !state.due(now).contains(key),
        !state.respawning().contains(key),
{
    lemma_filtered(state.order, |k: usize| state.is_due(now, k), key);
    lemma_filtered(state.order, |k: usize| state.respawns(k), key);
}

proof fn lemma_filtered(keys: Seq<usize>, chosen: spec_fn(usize) -> bool, key: usize)
    requires
        !chosen(key),
    ensures
        !keys.filter(chosen).contains(key),
    decreases keys.len(),
{
    reveal(Seq::filter);
    if keys.len() > 0 {
        let rest = keys.drop_last();
        lemma_filtered(rest, chosen, key);
        let found = keys.filter(chosen);
        if found.contains(key) {
            let i = found.index_of(key);
            if i < rest.filter(chosen).len() {
                assert(rest.filter(chosen)[i] == key);
            }
        }
    }
}

/// Taking a child in and letting it go again leaves the other children, their
/// slots and their order as they were.
pub proof fn removing_undoes_adding(before: Core, key: usize, entry: ChildEntry)
    requires
        before.wf(),
        !before.entries.contains_key(key),
        !entry.runtime.state.counted(),
    ensures
        before.enrolled(key, entry).vacated(key) == (Core {
            next_instance: before.next_instance + 1,
            ..before
        }),
{
    let during = before.enrolled(key, entry);
    let after = during.vacated(key);
    assert(!before.order.to_set().contains(key));
    assert(!before.order.contains(key));
    assert(during.order[before.order.len() as int] == key);
    let at = during.order.index_of(key);
    assert(at == before.order.len()) by {
        if at < before.order.len() {
            assert(before.order[at] == key);
        }
    }
    assert(after.order =~= before.order);
    assert(after.entries =~= before.entries);
}

/// Asking all children to stop marks those that count as running, and takes them
/// off the count. Those that were stopping already or had stopped are left as
/// they were, and nothing else changes.
pub proof fn stopping_marks_the_running(before: Core)
    requires
        before.wf(),
    ensures
        forall|key: usize| #[trigger]
            before.entries.contains_key(key) ==> before.cancelled().entries[key]
                == if before.entries[key].runtime.state is Starting
                || before.entries[key].runtime.state is Running {
                ChildEntry {
                    runtime: ChildRuntime {
                        state: RuntimeChildState::Stopping,
                        ..before.entries[key].runtime
                    },
                    ..before.entries[key]
                }
            } else {
                before.entries[key]
            },
        before.cancelled() == (Core {
            entries: before.cancelled().entries,
            running: (before.running - running_slots(before.entries).len()) as nat,
            ..before
        }),
{
}

/// Asking all children to stop leaves none that counts as running, and none of
/// them behind.
pub proof fn stopping_reaches_all(before: Core)
    requires
        before.wf(),
    ensures
        before.cancelled().running == 0,
        running_slots(before.cancelled().entries) == Set::<usize>::empty(),
        before.cancelled().entries.dom() == before.entries.dom(),
        before.cancelled().order == before.order,
{
    before.cancelled_is_wf();
    assert(before.cancelled().entries.dom() =~= before.entries.dom());
}

/// Asking all children to stop a second time changes nothing.
pub proof fn stopping_twice_is_stopping_once(before: Core)
    requires
        before.wf(),
    ensures
        before.cancelled().cancelled() == before.cancelled(),
{
    assert(before.cancelled().cancelled().entries =~= before.cancelled().entries);
}

/// A drain does not wait past its deadline: from then on it takes at most two
/// more steps, the last of which ends it.
pub proof fn drains_end(state: Core, before: Drain, now: Duration, after: Drain, step: DrainStep)
    requires
        drain_advances(state, before, now, after, step),
    ensures
        before.stage matches DrainStage::Waiting { deadline } && now@ >= deadline@ ==> step is Done
            || (step is Abort && after.stage is Forcing),
        before.stage is Forcing ==> step is Done,
{
}

/// The deadline of a drain stands once it is set.
pub proof fn drain_deadlines_stand(
    state: Core,
    before: Drain,
    now: Duration,
    after: Drain,
    step: DrainStep,
)
    requires
        drain_advances(state, before, now, after, step),
        before.stage is Waiting,
        step is AwaitExit,
    ensures
        after.stage == before.stage,
        before.stage matches DrainStage::Waiting { deadline } && now@ < deadline@,
{
}

/// A shutdown fails only because of children that were to stop by themselves and
/// did not: those that linger after an abort are not an error.
pub proof fn shutdowns_fail_only_for_the_unresponsive(
    state: Core,
    before: Drain,
    now: Duration,
    after: Drain,
    result: Result<(), SupervisorError>,
)
    requires
        before.reason is Shutdown,
        drain_advances(state, before, now, after, DrainStep::Done(result)),
    ensures
        result is Err ==> match before.stage {
            DrainStage::Aborting { .. } => state.engaged_names(
                Modes::Only(ShutdownMode::Cooperative),
            ).len() > 0,
            DrainStage::Waiting { .. } => state.engaged_names(
                Modes::Only(ShutdownMode::Cooperative),
            ).len() > 0,
            DrainStage::Forcing { timed_out } => timed_out@.len() > 0,
        },
{
}

/// A child that is only ever asked to stop is not aborted, however long it
/// takes.
pub proof fn cooperative_children_are_not_aborted(
    state: Core,
    before: Drain,
    now: Duration,
    after: Drain,
    keys: Vec<usize>,
    key: usize,
)
    requires
        drain_advances(state, before, now, after, DrainStep::Abort(keys)),
        state.entries[key].runtime.spec.shutdown_policy.mode is Cooperative,
    ensures
        !keys@.contains(key),
{
    let others = Modes::AllBut(ShutdownMode::Cooperative);
    lemma_filtered(
        keys_in_order(state.entries),
        |k: usize| state.engages(others, k),
        key,
    );
}

} // verus!
