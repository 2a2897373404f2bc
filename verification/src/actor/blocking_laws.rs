//! Whose a failure of blocking work is, and how much of it there may be.

use vstd::prelude::*;

use crate::actor::blocking::{
    noted, BlockingRuntime, BlockingTaskEntry, BlockingTaskError, BlockingTaskFailure, HandleState,
    TaskNews,
};
use crate::actor::blocking_finish::{amounts_to, FinishEvent};

verus! {

/// Whether `found` is the failure of a task, with its identity, that came of `error`.
pub open spec fn blames(
    found: Option<BlockingTaskFailure>,
    entry: BlockingTaskEntry,
    error: BlockingTaskError,
) -> bool {
    found matches Some(failure) && failure.task() == entry.task() && failure.name()
        == entry.task_name() && failure.cause() == error
}

/// The failure of a task is its actor's only if nobody waits on the handle or can still
/// come to: it is when the handle was dropped first, it is not while the handle is awaited
/// or held, and it becomes so when a held handle is dropped after all. Neither success nor
/// cancellation is a failure.
pub proof fn failures_belong_to_whoever_waits(
    before: Map<nat, BlockingTaskEntry>,
    n: nat,
    news: TaskNews,
    found: Option<BlockingTaskFailure>,
    after: Map<nat, BlockingTaskEntry>,
)
    requires
        noted(before, n, news, found, after),
        before.contains_key(n),
    ensures
        news is HandleAwaited ==> found is None,
        news matches TaskNews::Ended(result) ==> match result {
            Ok(()) => found is None,
            Err(error) => if error is Cancelled {
                found is None
            } else if before[n].unclaimed() is Some {
                found is None
            } else {
                match before[n].handle() {
                    HandleState::Dropped => blames(found, before[n], error),
                    HandleState::Awaited => found is None,
                    HandleState::Held => found is None && after.contains_key(n)
                        && after[n].unclaimed() == Some(error) && after[n].handle() is Held
                        && after[n].task() == before[n].task() && after[n].task_name()
                        == before[n].task_name(),
                }
            },
        },
        news is HandleDropped ==> match before[n].unclaimed() {
            Some(error) => blames(found, before[n], error),
            None => found is None && after.contains_key(n) && after[n].unclaimed() is None && (
            after[n].handle() is Dropped <==> !(before[n].handle() is Awaited)),
        },
{
    broadcast use BlockingTaskEntry::with_keeps_identity;

}

/// A task stays on the books until it has ended and nobody can ask for its failure any
/// more. What becomes of it leaves all others as they are.
pub proof fn tasks_stay_until_they_are_settled(
    before: Map<nat, BlockingTaskEntry>,
    n: nat,
    news: TaskNews,
    found: Option<BlockingTaskFailure>,
    after: Map<nat, BlockingTaskEntry>,
    other: nat,
)
    requires
        noted(before, n, news, found, after),
        other != n,
    ensures
        after.contains_key(other) == before.contains_key(other),
        after.contains_key(other) ==> after[other] == before[other],
        before.contains_key(n) && before[n].unclaimed() is None && !(news is Ended)
            ==> after.contains_key(n) && after[n].unclaimed() is None,
        before.contains_key(n) && before[n].unclaimed() is None && (news matches TaskNews::Ended(
            result,
        ) && (result matches Err(error) ==> error is Cancelled || !(before[n].handle() is Held)))
            ==> !after.contains_key(n),
        before.contains_key(n) && before[n].unclaimed() is Some && (news is HandleDropped || news
            is HandleAwaited) ==> !after.contains_key(n),
{
    broadcast use BlockingTaskEntry::with_keeps_identity;

}

/// What is heard of a task while its actor ends is judged in the same way: a task that
/// could not be joined has failed, an error is the actor's if the handle was dropped, and
/// neither success nor cancellation nor lateness is a failure.
pub proof fn late_ends_are_judged_alike(
    entry: BlockingTaskEntry,
    event: FinishEvent,
    found: Option<BlockingTaskFailure>,
)
    requires
        amounts_to(entry, event, found),
    ensures
        match event {
            FinishEvent::TimedOut => found is None,
            FinishEvent::Joined(None) => blames(found, entry, BlockingTaskError::Unavailable),
            FinishEvent::Joined(Some(Ok(()))) => found is None,
            FinishEvent::Joined(Some(Err(error))) => if error is Cancelled {
                found is None
            } else {
                match entry.handle() {
                    HandleState::Dropped => blames(found, entry, error),
                    HandleState::Awaited => found is None,
                    HandleState::Held => found is None,
                }
            },
        },
{
}

/// Work is turned away for the limit exactly if as many tasks run as the limit says: not
/// one sooner, and never where there is none. A task counts until it has ended.
pub proof fn work_is_turned_away_at_the_limit(runtime: BlockingRuntime, n: nat)
    requires
        runtime.wf(),
    ensures
        runtime.max_running() is None ==> !runtime.at_limit(),
        runtime.max_running() matches Some(max) ==> (runtime.at_limit() <==> runtime.running().len()
            == max),
        runtime.running().contains(n) <==> runtime.tasks().contains_key(n)
            && runtime.tasks()[n].unclaimed() is None,
{
}

} // verus!
