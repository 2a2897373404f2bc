//! Who belongs to a supervisor.

use vstd::prelude::*;

use crate::supervisor::builder::{child_ids, children_flaw, Plan};
use crate::supervisor::child::{ChildSpec, ChildSpecInner};
use crate::supervisor::error::ControlError;
use crate::supervisor::restart::{BackoffPolicy, RestartIntensity};
use crate::supervisor::runtime::child_runtime::{ChildEntry, MembershipState};
use crate::supervisor::runtime::model::{lemma_remove_one, Core};
use crate::supervisor::runtime::supervision::membership::{removed, spec_flaw, Removal};
use crate::supervisor::runtime::supervision::steps::{
    removal_advances, RemovalRun, RemovalStep,
};
use crate::supervisor::runtime::supervision::Publication;
use crate::time::Duration;

verus! {

/// Whether a backoff makes sense: a fixed delay is one, and an exponential one has
/// something to start from, something to grow by and room to grow.
pub open spec fn makes_sense(backoff: BackoffPolicy) -> bool {
    match backoff {
        BackoffPolicy::Immediate => true,
        BackoffPolicy::Fixed(delay) => delay@ > 0,
        BackoffPolicy::Exponential { base, factor, max } => base@ > 0 && factor > 0 && max@ > 0,
        BackoffPolicy::JitteredExponential { base, factor, max } => base@ > 0 && factor > 0
            && max@ > 0,
    }
}

/// A restart intensity is accepted exactly if its window is not empty and its backoff
/// makes sense.
pub proof fn sound_intensities_are_accepted(intensity: RestartIntensity)
    ensures
        intensity.flaw() is None <==> intensity.within@ > 0 && makes_sense(intensity.backoff),
{
    Duration::view_is_not_negative(intensity.within);
    match intensity.backoff {
        BackoffPolicy::Immediate => {},
        BackoffPolicy::Fixed(delay) => {
            Duration::view_is_not_negative(delay);
        },
        BackoffPolicy::Exponential { base, max, .. } => {
            Duration::view_is_not_negative(base);
            Duration::view_is_not_negative(max);
        },
        BackoffPolicy::JitteredExponential { base, max, .. } => {
            Duration::view_is_not_negative(base);
            Duration::view_is_not_negative(max);
        },
    }
}

/// A child can be taken in exactly if it has an id and, where it has a restart
/// intensity of its own, this is accepted.
pub proof fn sound_children_are_accepted(spec: ChildSpecInner)
    ensures
        spec_flaw(spec) is None <==> spec.id@.len() > 0 && match spec.restart_intensity {
            Some(intensity) => intensity.within@ > 0 && makes_sense(intensity.backoff),
            None => true,
        },
{
    if let Some(intensity) = spec.restart_intensity {
        sound_intensities_are_accepted(intensity);
    }
}

/// A request to take a child in is refused for one of three reasons: the supervisor
/// does not run, the child is not sound, or a member has its id. What is answered
/// says which.
pub proof fn refusals_have_a_reason(before: Core, spec: ChildSpecInner, error: ControlError)
    requires
        before.refuses(spec, error),
    ensures
        ({
            let sound = spec.id@.len() > 0 && match spec.restart_intensity {
                Some(intensity) => intensity.within@ > 0 && makes_sense(intensity.backoff),
                None => true,
            };
            if !(before.state is Running) {
                error is SupervisorStopping
            } else if !sound {
                error is InvalidConfig
            } else {
                &&& error matches ControlError::DuplicateChildId(id) && id@ == spec.id@
                &&& exists|key: usize| #[trigger]
                    before.entries.contains_key(key) && !(before.entries[key].membership is Removed)
                        && before.entries[key].id@ == spec.id@
            }
        }),
{
    sound_children_are_accepted(spec);
}

/// A child that is taken in comes last and leaves the others as they are.
pub proof fn newcomers_come_last(before: Core, key: usize, entry: ChildEntry, other: usize)
    requires
        before.wf(),
        !before.entries.contains_key(key),
        before.entries.contains_key(other),
    ensures
        before.enrolled(key, entry).order.last() == key,
        before.enrolled(key, entry).order.drop_last() == before.order,
        before.enrolled(key, entry).entries[key] == entry,
        before.enrolled(key, entry).entries[other] == before.entries[other],
        before.enrolled(key, entry).tasks == before.tasks,
        before.enrolled(key, entry).running == before.running,
{
    assert(before.enrolled(key, entry).order.drop_last() =~= before.order);
}

/// A child that is let go and may have a task is asked to stop and is no longer
/// counted as running; it is to be stopped as its own policy says and stays on the
/// list until its task ends. One without a task is gone at once, together with a
/// restart that was pending. No other child is touched.
pub proof fn removals_take_the_child_out(
    before: Core,
    unsent_before: Seq<Publication>,
    key: usize,
    now: Duration,
    removal: Removal,
    after: Core,
    unsent_after: Seq<Publication>,
    other: usize,
)
    requires
        before.wf(),
        before.entries.contains_key(key),
        removed(before, unsent_before, key, now, removal, after, unsent_after),
        other != key,
        before.entries.contains_key(other),
    ensures
        !(before.entries[key].runtime.state is Stopped) ==> {
            &&& removal == (Removal::Stop {
                key,
                policy: before.entries[key].runtime.spec.shutdown_policy,
            })
            &&& after.entries[key].membership is Removing
            &&& after.entries[key].runtime.state is Stopping
            &&& after.order == before.order
        },
        before.entries[key].runtime.state is Stopped ==> {
            &&& removal is Done
            &&& !after.entries.contains_key(key)
            &&& !after.order.contains(key)
        },
        before.entries[key].runtime.state is Running || before.entries[key].runtime.state
            is Starting ==> after.running == (before.running - 1) as nat,
        after.entries.contains_key(other) && after.entries[other] == before.entries[other],
        after.order.contains(other),
        after.tasks == before.tasks,
{
    before.order.unique_seq_to_set();
    assert(before.order.to_set().contains(key));
    assert(before.order.to_set().contains(other));
    lemma_remove_one(before.order, key);
    let left = before.order.remove(before.order.index_of(key));
    assert(left.to_set().contains(other));
    assert(!left.to_set().contains(key));
}

/// A supervisor keeps its last member: whether there is another is a matter of those
/// that are neither on their way out nor gone.
pub proof fn last_members_stay(state: Core, key: usize, other: usize)
    ensures
        state.entries.contains_key(other) && other != key && state.entries[other].membership
            is Active ==> state.has_other_member(key),
        (forall|k: usize| #[trigger]
            state.entries.contains_key(k) && k != key ==> !(state.entries[k].membership is Active))
            ==> !state.has_other_member(key),
{
}

/// A removal goes on only in a running supervisor, and is over once the child is gone. A
/// child that has been aborted, or would not stop when asked, no longer belongs to the
/// supervisor after that, whether its task has ended or not; the latter is an error that
/// names it. Nothing else changes on the way.
pub proof fn removals_end_with_the_child_gone(
    state: Core,
    before: RemovalRun,
    now: Duration,
    after: RemovalRun,
    step: RemovalStep,
    next: Core,
    other: usize,
)
    requires
        removal_advances(state, before, now, after, step, next),
        other != before.key,
    ensures
        ({
            let key = before.key;
            let there = state.entries.contains_key(key) && state.entries[key].membership
                is Removing;
            &&& !(state.state is Running) ==> (step matches RemovalStep::Done(
                Err(ControlError::SupervisorStopping),
            )) && next == state
            &&& state.state is Running && !there ==> (step matches RemovalStep::Done(Ok(_))) && next
                == state
            &&& state.state is Running && there ==> {
                &&& before.stage is Aborted ==> (step matches RemovalStep::Done(Ok(_)))
                &&& step matches RemovalStep::Done(Err(error)) ==> (error
                    matches ControlError::ShutdownTimedOut(id) && id == state.entries[key].id)
                &&& step is Done ==> next.entries[key] == (ChildEntry {
                    membership: MembershipState::Removed,
                    ..state.entries[key]
                })
                &&& !(step is Done) ==> next == state
            }
            &&& next.entries.contains_key(other) == state.entries.contains_key(other)
            &&& next.entries[other] == state.entries[other]
            &&& next.order == state.order
        }),
{
}

proof fn lemma_sound_children<F>(children: Seq<ChildSpec<F>>)
    ensures
        children_flaw(children) is None <==> {
            &&& forall|i: int|
                0 <= i < children.len() ==> spec_flaw((#[trigger] children[i]).policies()) is None
            &&& forall|i: int, j: int|
                0 <= i < j < children.len() ==> (#[trigger] children[i]).policies().id@ != (
                #[trigger] children[j]).policies().id@
        },
    decreases children.len(),
{
    if children.len() > 0 {
        let before = children.drop_last();
        let last = children.len() - 1;
        lemma_sound_children(before);
        let ids = child_ids(before);
        assert forall|i: int| 0 <= i < last implies #[trigger] before[i] == children[i] by {}
        assert forall|i: int| 0 <= i < last implies #[trigger] ids[i]
            == children[i].policies().id@ by {}
        if children_flaw(children) is None {
            assert forall|i: int| 0 <= i < children.len() implies spec_flaw(
                (#[trigger] children[i]).policies(),
            ) is None by {
                if i < last {
                    assert(spec_flaw(before[i].policies()) is None);
                }
            }
            assert forall|i: int, j: int| 0 <= i < j < children.len() implies (
            #[trigger] children[i]).policies().id@ != (#[trigger] children[j]).policies().id@ by {
                if j < last {
                    assert(before[i].policies().id@ != before[j].policies().id@);
                } else {
                    assert(ids[i] == children[i].policies().id@);
                }
            }
        }
        let sound = (forall|i: int|
            0 <= i < children.len() ==> spec_flaw((#[trigger] children[i]).policies()) is None)
            && (forall|i: int, j: int|
            0 <= i < j < children.len() ==> (#[trigger] children[i]).policies().id@ != (
            #[trigger] children[j]).policies().id@);
        if sound {
            assert(spec_flaw(children[last].policies()) is None);
            assert forall|i: int| 0 <= i < before.len() implies spec_flaw(
                (#[trigger] before[i]).policies(),
            ) is None by {
                assert(before[i] == children[i]);
            }
            if ids.contains(children[last].policies().id@) {
                let at = ids.index_of(children[last].policies().id@);
                assert(children[at].policies().id@ == children[last].policies().id@);
            }
        }
    }
}

/// A supervisor can be built exactly if it has children, its channels hold something, its
/// restart intensity is sound, each child is, and no two children have the same id.
pub proof fn sound_supervisors_are_accepted<F>(plan: Plan<F>)
    ensures
        plan.flaw() is None <==> {
            &&& plan.children.len() > 0
            &&& plan.control_channel_capacity > 0
            &&& plan.event_channel_capacity > 0
            &&& plan.restart_intensity.within@ > 0
            &&& makes_sense(plan.restart_intensity.backoff)
            &&& forall|i: int|
                0 <= i < plan.children.len() ==> {
                    let spec = (#[trigger] plan.children[i]).policies();
                    &&& spec.id@.len() > 0
                    &&& spec.restart_intensity matches Some(intensity) ==> intensity.within@ > 0
                        && makes_sense(intensity.backoff)
                }
            &&& forall|i: int, j: int|
                0 <= i < j < plan.children.len() ==> (#[trigger] plan.children[i]).policies().id@
                    != (#[trigger] plan.children[j]).policies().id@
        },
{
    sound_intensities_are_accepted(plan.restart_intensity);
    lemma_sound_children(plan.children);
    assert forall|i: int| 0 <= i < plan.children.len() implies (spec_flaw(
        (#[trigger] plan.children[i]).policies(),
    ) is None <==> {
        let spec = plan.children[i].policies();
        &&& spec.id@.len() > 0
        &&& spec.restart_intensity matches Some(intensity) ==> intensity.within@ > 0 && makes_sense(
            intensity.backoff,
        )
    }) by {
        sound_children_are_accepted(plan.children[i].policies());
    }
}

} // verus!
