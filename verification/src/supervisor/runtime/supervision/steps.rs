//! What a running supervisor does next.

use vstd::prelude::*;

use crate::supervisor::error::{ControlError, SupervisorError, SupervisorExit};
use crate::supervisor::event::{ExitStatusView, SupervisorEvent};
use crate::supervisor::runtime::child_runtime::{ChildEntry, MembershipState};
use crate::supervisor::runtime::exit::ExitStatus;
use crate::supervisor::runtime::model::{Core, SupervisorState};
use crate::supervisor::runtime::slots;
use crate::supervisor::runtime::supervision::exits::{task_unknown, ExitRecord};
use crate::supervisor::runtime::supervision::restarts::{restart_planned, RestartPlan};
use crate::supervisor::runtime::supervision::{announced, Publication, SupervisorRuntime};
use crate::supervisor::shutdown::{ShutdownMode, ShutdownPolicy};
use crate::supervisor::strategy::Strategy;
use crate::time::{later, Duration};

verus! {

/// What the end of a task led to.
#[derive(Debug)]
pub enum Reaction {
    /// Nothing: the task was that of an incarnation that has been superseded, or
    /// of a child that is gone.
    Ignored,
    /// The child in the slot was to be removed, and is now.
    Removed(usize),
    /// The supervisor has settled on what to do about the child in the slot.
    Decided(usize, RestartPlan),
}

/// Whether the end of a task leads to `reaction` in a running supervisor, and to
/// the state `after`: only the present incarnation of a child that belongs to
/// the supervisor is considered for a restart.
pub open spec fn reacted(
    before: Core,
    unsent_before: Seq<Publication>,
    task: nat,
    status: ExitStatus,
    now: Duration,
    random: u128,
    reaction: Reaction,
    after: Core,
    unsent_after: Seq<Publication>,
) -> bool {
    let meta = before.tasks[task];
    let rest = before.without_task(task);
    let entry = before.entries[meta.key];
    if !before.is_current(meta) {
        &&& reaction is Ignored
        &&& after == rest
        &&& unsent_after == unsent_before
    } else if entry.membership is Removed {
        &&& reaction == Reaction::Removed(meta.key)
        &&& after == rest.vacated(meta.key)
        &&& unsent_after == unsent_before
    } else {
        exists|view: ExitStatusView| #[trigger]
            status.shown_as(view) && {
                let exited = rest.exited(meta.key, view);
                let event = SupervisorEvent::ChildExited {
                    id: entry.id,
                    generation: meta.generation,
                    status: view,
                };
                if entry.membership is Removing {
                    &&& reaction == Reaction::Removed(meta.key)
                    &&& after == rest.vacated(meta.key)
                    &&& announced(unsent_before, unsent_after.drop_last(), exited, now, event)
                    &&& announced(
                        unsent_after.drop_last(),
                        unsent_after,
                        after,
                        now,
                        SupervisorEvent::ChildRemoved { id: entry.id },
                    )
                } else {
                    &&& reaction matches Reaction::Decided(key, plan)
                    &&& key == meta.key
                    &&& restart_planned(exited, key, status.failure(), now, random, plan, after)
                    &&& match decision_event(entry, before.strategy, plan) {
                        None => announced(unsent_before, unsent_after, exited, now, event),
                        Some(decision) => {
                            &&& announced(
                                unsent_before,
                                unsent_after.drop_last(),
                                exited,
                                now,
                                event,
                            )
                            &&& announced(
                                unsent_after.drop_last(),
                                unsent_after,
                                after,
                                now,
                                decision,
                            )
                        },
                    }
                }
            }
    }
}

/// The event by which the decision about a child is made known.
pub open spec fn decision_event(entry: ChildEntry, strategy: Strategy, plan: RestartPlan) -> Option<
    SupervisorEvent,
> {
    match plan {
        RestartPlan::NotRestarted => None,
        RestartPlan::IntensityExceeded => Some(SupervisorEvent::RestartIntensityExceeded),
        RestartPlan::Scheduled(delay) => match strategy {
            Strategy::OneForOne => Some(
                SupervisorEvent::ChildRestartScheduled {
                    id: entry.id,
                    generation: entry.runtime.generation,
                    delay,
                },
            ),
            Strategy::OneForAll => Some(SupervisorEvent::GroupRestartScheduled { delay }),
        },
    }
}

/// What a running supervisor is to do next.
#[derive(Debug)]
pub enum Move {
    /// Stop: nothing runs and nothing is about to.
    Finish(SupervisorExit),
    /// Restart all children.
    RestartGroup,
    /// Restart the children in these slots.
    Restart(Vec<usize>),
    /// Wait for something to happen, but not past the deadline if there is one.
    Wait(Option<Duration>),
}

impl Core {
    /// Whether a restart of all children is due at `now`.
    pub open spec fn group_due(self, now: Duration) -> bool {
        self.state is Running && (self.group_deadline matches Some(deadline) && deadline@ <= now@)
    }

    /// Whether the child under `key` waits for its restart.
    pub open spec fn awaits_restart(self, key: usize) -> bool {
        &&& self.entries.contains_key(key)
        &&& self.entries[key].membership is Active
        &&& self.entries[key].runtime.next_restart_deadline is Some
    }

    /// Whether `first` is when the next restart is due.
    pub open spec fn next_due(self, first: Option<Duration>) -> bool {
        match first {
            None => self.group_deadline is None && forall|key: usize| !#[trigger]
                self.awaits_restart(key),
            Some(first) => {
                &&& self.group_deadline matches Some(deadline) ==> first@ <= deadline@
                &&& forall|key: usize| #[trigger]
                    self.awaits_restart(key) ==> first@
                        <= self.entries[key].runtime.next_restart_deadline->Some_0@
                &&& self.group_deadline == Some(first) || exists|key: usize| #[trigger]
                    self.awaits_restart(key) && self.entries[key].runtime.next_restart_deadline
                        == Some(first)
            },
        }
    }
}

impl Core {
    /// Whether `next` is what to do at `now`: stop if nothing runs and nothing is
    /// about to, otherwise restart what is due, otherwise wait.
    pub open spec fn moves(self, now: Duration, next: Move) -> bool {
        if self.idle() {
            next == Move::Finish(
                if self.has_failed() {
                    SupervisorExit::Failed
                } else {
                    SupervisorExit::Completed
                },
            )
        } else if self.group_due(now) {
            next is RestartGroup
        } else if self.due(now).len() > 0 {
            next matches Move::Restart(keys) && keys@ == self.due(now)
        } else {
            next matches Move::Wait(first) && self.next_due(first)
        }
    }
}

/// How far a removal has got.
#[derive(Debug)]
pub enum RemovalStage {
    /// The child has been asked to stop.
    Asked,
    /// The child has until the deadline to stop by itself.
    Waiting(Duration),
    /// The child has been aborted.
    Aborted,
}

/// The removal of a child, in progress.
#[derive(Debug)]
pub struct RemovalRun {
    /// The slot of the child.
    pub key: usize,
    /// How the child is to be stopped.
    pub policy: ShutdownPolicy,
    /// How far it has got.
    pub stage: RemovalStage,
}

/// What a removal needs next.
#[derive(Debug)]
pub enum RemovalStep {
    /// Cancel the token of the task in the slot, then go on.
    Ask(usize),
    /// Abort the task in the slot, report it if it has ended, then go on.
    Abort(usize),
    /// Wait for the task to end, but not past the deadline, then go on.
    AwaitExit(Duration),
    /// The removal is over.
    Done(Result<(), ControlError>),
}

/// Whether `(run, step)` is how a removal begins: whatever its policy, the child
/// is asked to stop.
pub open spec fn removal_begins(
    key: usize,
    policy: ShutdownPolicy,
    run: RemovalRun,
    step: RemovalStep,
) -> bool {
    &&& run.key == key
    &&& run.policy == policy
    &&& run.stage is Asked
    &&& step == RemovalStep::Ask(key)
}

impl Core {
    /// Whether the child under `key` is still to be removed.
    pub open spec fn is_leaving(self, key: usize) -> bool {
        self.entries.contains_key(key) && self.entries[key].membership is Removing
    }

    /// The state after the supervisor has given up on a child that was to be
    /// removed.
    pub open spec fn given_up(self, key: usize) -> Core {
        self.changed(key, self.entries[key].in_membership(MembershipState::Removed))
    }
}

/// Whether a removal goes on like this: the child is gone once its task has
/// ended, or once it has been aborted; a child that is only ever asked to stop
/// is an error once its grace period is over.
pub open spec fn removal_advances(
    state: Core,
    before: RemovalRun,
    now: Duration,
    after: RemovalRun,
    step: RemovalStep,
    next: Core,
) -> bool {
    let key = before.key;
    if !(state.state is Running) {
        &&& step matches RemovalStep::Done(Err(error)) && error is SupervisorStopping
        &&& next == state
    } else if !state.is_leaving(key) {
        step matches RemovalStep::Done(Ok(())) && next == state
    } else {
        match before.stage {
            RemovalStage::Asked => {
                &&& after.key == key
                &&& after.policy == before.policy
                &&& if before.policy.mode is Abort {
                    after.stage is Aborted && step == RemovalStep::Abort(key)
                } else {
                    &&& after.stage matches RemovalStage::Waiting(deadline)
                    &&& deadline@ == later(now, before.policy.grace)
                    &&& step == RemovalStep::AwaitExit(deadline)
                }
                &&& next == state
            },
            RemovalStage::Waiting(deadline) => if now@ < deadline@ {
                &&& step == RemovalStep::AwaitExit(deadline)
                &&& after == before
                &&& next == state
            } else if before.policy.mode is Cooperative {
                &&& step matches RemovalStep::Done(Err(ControlError::ShutdownTimedOut(id)))
                &&& id == state.entries[key].id
                &&& next == state.given_up(key)
            } else {
                &&& step == RemovalStep::Abort(key)
                &&& after.key == key
                &&& after.policy == before.policy
                &&& after.stage is Aborted
                &&& next == state
            },
            RemovalStage::Aborted => {
                &&& step matches RemovalStep::Done(Ok(()))
                &&& next == state.given_up(key)
            },
        }
    }
}

impl SupervisorRuntime {
    /// Takes note of the end of a task and settles on what to do about it.
    pub fn handle_exit(&mut self, task: u64, status: ExitStatus, now: Duration, random: u128) -> (r:
        Result<Reaction, SupervisorError>)
        requires
            old(self).state().wf(),
        ensures
            final(self).state().wf(),
            final(self).group() == old(self).group(),
            final(self).path() == old(self).path(),
            match r {
                Err(error) => {
                    &&& !old(self).state().tasks.contains_key(task as nat)
                    &&& task_unknown(error, task)
                    &&& final(self).state() == old(self).state()
                    &&& final(self).unsent() == old(self).unsent()
                },
                Ok(reaction) => {
                    &&& old(self).state().tasks.contains_key(task as nat)
                    &&& reacted(
                        old(self).state(),
                        old(self).unsent(),
                        task as nat,
                        status,
                        now,
                        random,
                        reaction,
                        final(self).state(),
                        final(self).unsent(),
                    )
                },
            },
    {
        match self.record_exit(task, status, now) {
            Err(error) => Err(error),
            Ok(ExitRecord::Stale) => Ok(Reaction::Ignored),
            Ok(ExitRecord::Removed { key }) => Ok(Reaction::Removed(key)),
            Ok(ExitRecord::Exited { key, failure }) => {
                let plan = self.plan_restart(key, failure, now, random);
                Ok(Reaction::Decided(key, plan))
            },
        }
    }

    /// What to do next: stop if nothing runs and nothing is about to, otherwise
    /// restart what is due, otherwise wait.
    pub fn next_move(&self, now: Duration) -> (r: Move)
        requires
            self.state().wf(),
        ensures
            self.state().moves(now, r),
    {
        if let Some(exit) = self.completion() {
            return Move::Finish(exit);
        }
        if self.group_restart_due(now) {
            return Move::RestartGroup;
        }
        let keys = self.due_children(now);
        if keys.len() > 0 {
            return Move::Restart(keys);
        }
        let first = self.next_deadline();
        proof {
            let state = self.state();
            let pending = |key: usize|
                state.entries.contains_key(key) && state.entries[key].membership is Active
                    && state.entries[key].runtime.next_restart_deadline is Some;
            assert forall|key: usize| #[trigger] state.awaits_restart(key) == pending(key) by {}
            if let Some(first) = first {
                if state.group_deadline != Some(first) {
                    let key = choose|key: usize| #[trigger]
                        pending(key) && state.entries[key].runtime.next_restart_deadline == Some(
                            first,
                        );
                    assert(state.awaits_restart(key));
                }
            }
        }
        Move::Wait(first)
    }

    /// Begins to stop a child that is to be removed.
    pub fn begin_removal(key: usize, policy: ShutdownPolicy) -> (r: (RemovalRun, RemovalStep))
        ensures
            removal_begins(key, policy, r.0, r.1),
    {
        (RemovalRun { key, policy, stage: RemovalStage::Asked }, RemovalStep::Ask(key))
    }

    fn leaves(&self, key: usize) -> (r: bool)
        ensures
            r == self.state().is_leaving(key),
    {
        match slots::entry(&self.children, key) {
            Some(entry) => entry.membership == MembershipState::Removing,
            None => false,
        }
    }

    /// Goes on with a removal, after what the last step asked for has been done
    /// and the tasks that have ended have been reported.
    pub fn advance_removal(&mut self, run: RemovalRun, now: Duration) -> (r: (
        RemovalRun,
        RemovalStep,
    ))
        requires
            old(self).state().wf(),
        ensures
            final(self).state().wf(),
            final(self).group() == old(self).group(),
            final(self).path() == old(self).path(),
            removal_advances(old(self).state(), run, now, r.0, r.1, final(self).state()),
            if old(self).state().state is Running && old(self).state().is_leaving(run.key)
                && run.stage is Aborted {
                announced(
                    old(self).unsent(),
                    final(self).unsent(),
                    final(self).state(),
                    now,
                    SupervisorEvent::ChildRemoved { id: old(self).state().entries[run.key].id },
                )
            } else {
                final(self).unsent() == old(self).unsent()
            },
    {
        let key: usize = run.key;
        if self.state != SupervisorState::Running {
            return (run, RemovalStep::Done(Err(ControlError::SupervisorStopping)));
        }
        if !self.leaves(key) {
            return (run, RemovalStep::Done(Ok(())));
        }
        match run.stage {
            RemovalStage::Asked => match run.policy.mode {
                ShutdownMode::Abort => (
                    RemovalRun { key, policy: run.policy, stage: RemovalStage::Aborted },
                    RemovalStep::Abort(key),
                ),
                _ => {
                    let deadline = now.saturating_add(run.policy.grace);
                    (
                        RemovalRun { key, policy: run.policy, stage: RemovalStage::Waiting(deadline) },
                        RemovalStep::AwaitExit(deadline),
                    )
                },
            },
            RemovalStage::Waiting(deadline) => {
                if now.is_shorter_than(deadline) {
                    return (
                        RemovalRun { key, policy: run.policy, stage: RemovalStage::Waiting(deadline) },
                        RemovalStep::AwaitExit(deadline),
                    );
                }
                if run.policy.mode == ShutdownMode::Cooperative {
                    let result = match self.abandon(key) {
                        Some(error) => Err(error),
                        None => Ok(()),
                    };
                    return (
                        RemovalRun { key, policy: run.policy, stage: RemovalStage::Aborted },
                        RemovalStep::Done(result),
                    );
                }
                (
                    RemovalRun { key, policy: run.policy, stage: RemovalStage::Aborted },
                    RemovalStep::Abort(key),
                )
            },
            RemovalStage::Aborted => {
                if let Some(ControlError::ShutdownTimedOut(id)) = self.abandon(key) {
                    self.send_event(now, SupervisorEvent::ChildRemoved { id });
                }
                (
                    RemovalRun { key, policy: run.policy, stage: RemovalStage::Aborted },
                    RemovalStep::Done(Ok(())),
                )
            },
        }
    }
}

} // verus!
