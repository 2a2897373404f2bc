//! What a supervisor lets others see.

use vstd::prelude::*;

use crate::supervisor::error::{SupervisorError, SupervisorExit};
use crate::supervisor::event::SupervisorEvent;
use crate::supervisor::runtime::child_runtime::ChildEntry;
use crate::supervisor::runtime::exit::ExitStatus;
use crate::supervisor::runtime::model::Core;
use crate::supervisor::runtime::restart_laws::tells_how;
use crate::supervisor::runtime::supervision::restarts::RestartPlan;
use crate::supervisor::runtime::supervision::steps::{reacted, Reaction};
use crate::supervisor::runtime::supervision::stop::{stop_advances, Stop, StopCause, StopStep};
use crate::supervisor::runtime::supervision::{announced, Publication};
use crate::supervisor::snapshot::SupervisorSnapshot;
use crate::supervisor::strategy::Strategy;
use crate::time::Duration;

verus! {

/// A snapshot tells the state of a supervisor and of each of its children by name. The
/// children stand in their order, without those that were given up; a child that is to be
/// removed is told from one that is not. How long it is until a restart is counted from
/// when the snapshot is taken.
pub proof fn snapshots_tell_the_state(
    state: Core,
    now: Duration,
    snapshot: SupervisorSnapshot,
    i: int,
)
    requires
        state.shown_as(now, snapshot),
        0 <= i < snapshot.children@.len(),
    ensures
        state.state is Running <==> snapshot.state is Running,
        state.state is Stopping <==> snapshot.state is Stopping,
        state.state is Stopped <==> snapshot.state is Stopped,
        snapshot.last_exit == state.last_exit,
        snapshot.strategy == state.strategy,
        ({
            let entry = state.entries[state.members()[i]];
            let child = snapshot.children@[i];
            &&& child.id == entry.id
            &&& child.generation == entry.runtime.generation
            &&& child.restart_count == entry.restart_count
            &&& child.last_exit == entry.last_exit
            &&& entry.runtime.state is Starting <==> child.state is Starting
            &&& entry.runtime.state is Running <==> child.state is Running
            &&& entry.runtime.state is Stopping <==> child.state is Stopping
            &&& entry.runtime.state is Stopped <==> child.state is Stopped
            &&& entry.membership is Active <==> child.membership is Active
            &&& child.next_restart_in is Some <==> entry.runtime.next_restart_deadline is Some
            &&& entry.runtime.next_restart_deadline matches Some(deadline) ==> (now@ <= deadline@
                ==> child.next_restart_in->Some_0@ + now@ == deadline@)
            &&& child.supervisor is Some <==> entry.nested_snapshot is Some
        }),
{
    assert(state.entries[state.members()[i]].shown_as(now, snapshot.children@[i]));
}

/// The members of a supervisor are its children in their order, without those that were
/// given up.
pub proof fn members_are_those_not_given_up(state: Core, key: usize)
    requires
        state.wf(),
    ensures
        state.members().contains(key) <==> state.entries.contains_key(key) && !(
        state.entries[key].membership is Removed),
{
    broadcast use vstd::seq_lib::group_filter_ensures;

    let stays = |k: usize| !(state.entries[k].membership is Removed);
    assert(state.members() =~= state.order.filter(stays));
    assert(state.order.to_set().contains(key) <==> state.entries.contains_key(key));
    if state.members().contains(key) {
        state.order.lemma_filter_contains_rev(stays, key);
        assert(stays(state.members()[state.members().index_of(key)]));
    }
    if state.order.contains(key) && stays(key) {
        assert(state.order[state.order.index_of(key)] == key);
    }
}

/// An announcement adds one publication, of that event, and takes nothing back of what
/// went before. Whoever reads it sees the supervisor as it was at that time.
pub proof fn announcements_add_one(
    before: Seq<Publication>,
    after: Seq<Publication>,
    state: Core,
    now: Duration,
    event: SupervisorEvent,
    i: int,
)
    requires
        announced(before, after, state, now, event),
    ensures
        after.len() == before.len() + 1,
        after[before.len() as int].event == event,
        state.shown_as(now, after[before.len() as int].snapshot),
        0 <= i < before.len() ==> after[i] == before[i],
{
    assert(after.drop_last() == before);
    if 0 <= i < before.len() {
        assert(after.drop_last()[i] == after[i]);
    }
}

/// A start of a child is announced as one, in the generation that the child then has. A
/// start after the first is announced as a restart as well, from the generation before,
/// which is one less.
pub proof fn restarts_are_announced_as_such(entry: ChildEntry)
    requires
        entry.runtime.generation < u64::MAX,
    ensures
        ({
            let generation = entry.runtime.generation;
            let events = entry.start_events();
            &&& events.len() == if entry.runtime.has_started {
                2int
            } else {
                1
            }
            &&& events[0] matches SupervisorEvent::ChildStarted { id, generation: started } && id
                == entry.id && started == if entry.runtime.has_started {
                generation + 1
            } else {
                generation as int
            }
            &&& entry.runtime.has_started ==> (events[1] matches SupervisorEvent::ChildRestarted {
                id,
                old_generation,
                new_generation,
            } && id == entry.id && old_generation == generation && new_generation == generation + 1)
        }),
{
}

/// A supervisor that has stopped has done so for its cause: on request, which is an orderly
/// end, or because its children were restarted too often, which is an error. Either is on
/// record and announced. One whose children could not be stopped reports that instead.
pub proof fn stops_come_to_their_cause(
    before: Core,
    unsent_before: Seq<Publication>,
    stop: Stop,
    now: Duration,
    next: Stop,
    result: Result<SupervisorExit, SupervisorError>,
    after: Core,
    unsent_after: Seq<Publication>,
)
    requires
        stop_advances(
            before,
            unsent_before,
            stop,
            now,
            next,
            StopStep::Done(result),
            after,
            unsent_after,
        ),
    ensures
        result is Ok ==> stop.cause is Requested && result == Ok::<SupervisorExit, SupervisorError>(
            SupervisorExit::Shutdown,
        ),
        stop.cause is IntensityExceeded ==> result is Err,
        result matches Err(error) ==> error is RestartIntensityExceeded && stop.cause
            is IntensityExceeded || error is ShutdownTimedOut,
        result is Ok || result->Err_0 is RestartIntensityExceeded ==> {
            &&& after.state is Stopped
            &&& stop.cause is Requested ==> after.last_exit == Some(SupervisorExit::Shutdown)
            &&& stop.cause is IntensityExceeded ==> after.last_exit == Some(SupervisorExit::Failed)
            &&& unsent_after.len() == unsent_before.len() + 1
            &&& unsent_after.last().event is SupervisorStopped
            &&& after.entries == before.entries
        },
{
}

/// The end of a child is announced under its id and generation, with how it ended. What was
/// decided about it is announced next: a restart of the child with its id, generation and
/// delay, a restart of all with the delay, or that there were too many. Nothing more is
/// announced of a child that is not restarted.
pub proof fn decisions_are_announced(
    before: Core,
    unsent_before: Seq<Publication>,
    task: nat,
    status: ExitStatus,
    now: Duration,
    random: u128,
    plan: RestartPlan,
    after: Core,
    unsent_after: Seq<Publication>,
)
    requires
        reacted(
            before,
            unsent_before,
            task,
            status,
            now,
            random,
            Reaction::Decided(before.tasks[task].key, plan),
            after,
            unsent_after,
        ),
    ensures
        ({
            let meta = before.tasks[task];
            let entry = before.entries[meta.key];
            let old = unsent_before.len() as int;
            &&& unsent_after.len() == if plan is NotRestarted {
                old + 1
            } else {
                old + 2
            }
            &&& unsent_after[old].event matches SupervisorEvent::ChildExited {
                id,
                generation,
                status: shown,
            } && id == entry.id && generation == meta.generation && tells_how(Some(shown), status)
            &&& plan is IntensityExceeded ==> unsent_after[old + 1].event
                is RestartIntensityExceeded
            &&& plan matches RestartPlan::Scheduled(delay) ==> match before.strategy {
                Strategy::OneForOne => unsent_after[old + 1].event
                    matches SupervisorEvent::ChildRestartScheduled {
                    id,
                    generation,
                    delay: told,
                } && id == entry.id && generation == meta.generation && told == delay,
                Strategy::OneForAll => unsent_after[old + 1].event
                    matches SupervisorEvent::GroupRestartScheduled { delay: told } && told == delay,
            }
        }),
{
    let old = unsent_before.len() as int;
    if !(plan is NotRestarted) {
        assert(unsent_after.drop_last()[old] == unsent_after[old]);
    }
}

} // verus!
