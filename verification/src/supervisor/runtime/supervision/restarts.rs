//! Restarting children, or giving up on them.

use vstd::prelude::*;

use crate::supervisor::error::{SupervisorError, SupervisorExit};
use crate::supervisor::event::{ExitStatusView, SupervisorEvent};
use crate::supervisor::runtime::child_runtime::{ChildEntry, ChildRuntime, MembershipState};
use crate::supervisor::runtime::intensity::{recent, RestartTracker};
use crate::supervisor::runtime::model::{next_u64, Core, SupervisorState};
use crate::supervisor::runtime::slots;
use crate::supervisor::runtime::supervision::spawn::{starts, SpawnPlan};
use crate::supervisor::runtime::supervision::{announced, SupervisorRuntime};
use crate::supervisor::strategy::Strategy;
use crate::time::{later, Duration};

verus! {

/// What a supervisor does about a child that has exited.
#[derive(Clone, Copy, Debug, PartialEq, Eq, Structural)]
pub enum RestartPlan {
    /// The child stays stopped.
    NotRestarted,
    /// A restart is due after the delay: of the child, or of all children.
    Scheduled(Duration),
    /// The child has been restarted too often; the supervisor gives up.
    IntensityExceeded,
}

impl ChildEntry {
    /// The restarts that count against the limit of the child at `now`.
    pub open spec fn recent_restarts(self, now: Duration) -> Seq<Duration> {
        recent(
            self.runtime.restart_tracker.restarts(),
            now,
            self.runtime.restart_tracker.limit().within,
        )
    }

    /// Whether one more restart at `now` is within the child's limit.
    pub open spec fn may_restart(self, now: Duration) -> bool {
        self.recent_restarts(now).len() + 1 <= self.runtime.restart_tracker.limit().max_restarts
    }

    /// Whether `delay` is the delay that the child's backoff policy gives at
    /// `now`, with the jitter that `random` makes of it.
    pub open spec fn backs_off(self, now: Duration, random: u128, delay: Duration) -> bool {
        delay@ == self.runtime.restart_tracker.limit().backoff.spread_delay(
            self.recent_restarts(now).len(),
            random,
        )
    }

    /// Whether `tracker` is the child's after one more restart was recorded.
    pub open spec fn recorded_in(self, now: Duration, tracker: RestartTracker) -> bool {
        &&& tracker.limit() == self.runtime.restart_tracker.limit()
        &&& tracker.restarts() == self.recent_restarts(now).push(now)
    }

    /// The child with a restart pending.
    pub open spec fn rescheduled(self, tracker: RestartTracker, deadline: Option<Duration>) -> Self {
        ChildEntry {
            runtime: ChildRuntime {
                restart_tracker: tracker,
                next_restart_deadline: deadline,
                ..self.runtime
            },
            terminal_status: None,
            ..self
        }
    }

    /// The child after one restart more.
    pub open spec fn counted_restart(self) -> Self {
        ChildEntry { restart_count: next_u64(self.restart_count), ..self }
    }
}

/// Whether `after` is `before` once the supervisor has settled on `plan` for the
/// child under `key`, which exited at `now`.
pub open spec fn restart_planned(
    before: Core,
    key: usize,
    failure: bool,
    now: Duration,
    random: u128,
    plan: RestartPlan,
    after: Core,
) -> bool {
    let entry = before.entries[key];
    let runtime = after.entries[key].runtime;
    let tracker = runtime.restart_tracker;
    if !entry.runtime.spec.restart.restarts(failure) {
        plan is NotRestarted && after == before
    } else if !entry.may_restart(now) {
        &&& plan is IntensityExceeded
        &&& entry.recorded_in(now, tracker)
        &&& after == before.changed(
            key,
            ChildEntry {
                runtime: ChildRuntime { restart_tracker: tracker, ..entry.runtime },
                ..entry
            },
        )
    } else {
        &&& plan matches RestartPlan::Scheduled(delay) && entry.backs_off(
            now,
            random,
            delay,
        ) && match before.strategy {
            Strategy::OneForOne => {
                &&& entry.recorded_in(now, tracker)
                &&& runtime.next_restart_deadline matches Some(deadline) && deadline@ == later(
                    now,
                    delay,
                )
                &&& after == before.changed(
                    key,
                    entry.rescheduled(tracker, runtime.next_restart_deadline).counted_restart(),
                )
            },
            Strategy::OneForAll => {
                &&& entry.recorded_in(now, tracker)
                &&& after.group_deadline matches Some(deadline) && deadline@ == later(now, delay)
                &&& after == (Core {
                    group_deadline: after.group_deadline,
                    ..before.changed(key, entry.rescheduled(tracker, None))
                })
            },
        }
    }
}

impl Core {
    /// Whether the child under `key` takes part in a restart of all children.
    pub open spec fn respawns(self, key: usize) -> bool {
        &&& self.entries[key].membership is Active
        &&& !(self.entries[key].runtime.spec.restart is Temporary)
    }

    /// The children that take part in a restart of all children.
    pub open spec fn respawning(self) -> Seq<usize> {
        self.order.filter(|key: usize| self.respawns(key))
    }

    /// Whether a restart of the child under `key` is due at `now`.
    pub open spec fn is_due(self, now: Duration, key: usize) -> bool {
        &&& self.entries[key].membership is Active
        &&& self.entries[key].runtime.next_restart_deadline matches Some(deadline) && deadline@
            <= now@
    }

    /// The children whose restart is due at `now`, in order. None is while the
    /// supervisor stops: a shutdown goes before any restart.
    pub open spec fn due(self, now: Duration) -> Seq<usize> {
        if self.state is Running {
            self.order.filter(|key: usize| self.is_due(now, key))
        } else {
            Seq::empty()
        }
    }

    /// Whether nothing runs and nothing is about to.
    pub open spec fn idle(self) -> bool {
        &&& self.group_deadline is None
        &&& forall|key: usize| #[trigger]
            self.entries.contains_key(key) && !(self.entries[key].membership is Removed)
                ==> !self.entries[key].runtime.state.active()
                && self.entries[key].runtime.next_restart_deadline is None
    }

    /// Whether a child ended for good with a failure.
    pub open spec fn has_failed(self) -> bool {
        exists|key: usize| #[trigger]
            self.entries.contains_key(key) && self.entries[key].failed()
    }
}

impl ChildEntry {
    /// Whether the child ended for good with a failure. What earlier
    /// incarnations of it came to does not count.
    pub open spec fn failed(self) -> bool {
        !(self.membership is Removed) && (self.terminal_status matches Some(status) && !(
        status is Completed))
    }
}

impl SupervisorRuntime {
    /// Decides what to do about the child under `key`, which has exited: whether
    /// it is restarted is up to its restart policy, and how often and how soon
    /// to its restart intensity.
    pub fn plan_restart(&mut self, key: usize, failure: bool, now: Duration, random: u128) -> (r:
        RestartPlan)
        requires
            old(self).state().wf(),
            old(self).state().entries.contains_key(key),
        ensures
            final(self).state().wf(),
            final(self).group() == old(self).group(),
            final(self).path() == old(self).path(),
            restart_planned(old(self).state(), key, failure, now, random, r, final(self).state()),
            match r {
                RestartPlan::NotRestarted => final(self).unsent() == old(self).unsent(),
                RestartPlan::IntensityExceeded => announced(
                    old(self).unsent(),
                    final(self).unsent(),
                    final(self).state(),
                    now,
                    SupervisorEvent::RestartIntensityExceeded,
                ),
                RestartPlan::Scheduled(delay) => announced(
                    old(self).unsent(),
                    final(self).unsent(),
                    final(self).state(),
                    now,
                    match old(self).state().strategy {
                        Strategy::OneForOne => SupervisorEvent::ChildRestartScheduled {
                            id: old(self).state().entries[key].id,
                            generation: old(self).state().entries[key].runtime.generation,
                            delay,
                        },
                        Strategy::OneForAll => SupervisorEvent::GroupRestartScheduled { delay },
                    },
                ),
            },
    {
        let ghost before = self.state();
        let strategy = self.strategy;
        let plan: RestartPlan;
        let mut id = String::new();
        let mut generation: u64 = 0;
        let mut group_deadline: Option<Duration> = None;
        match slots::entry_mut(&mut self.children, key) {
            None => {
                return RestartPlan::NotRestarted;
            },
            Some(entry) => {
                if !entry.runtime.spec.restart.should_restart(failure) {
                    plan = RestartPlan::NotRestarted;
                } else {
                    match entry.runtime.restart_tracker.record(now, random) {
                        None => {
                            plan = RestartPlan::IntensityExceeded;
                        },
                        Some(delay) => {
                            plan = RestartPlan::Scheduled(delay);
                            let deadline = now.saturating_add(delay);
                            entry.terminal_status = None;
                            match strategy {
                                Strategy::OneForOne => {
                                    entry.runtime.next_restart_deadline = Some(deadline);
                                    if entry.restart_count < u64::MAX {
                                        entry.restart_count = entry.restart_count + 1;
                                    }
                                    id = entry.id.clone();
                                    generation = entry.runtime.generation;
                                },
                                Strategy::OneForAll => {
                                    entry.runtime.next_restart_deadline = None;
                                    group_deadline = Some(deadline);
                                },
                            }
                        },
                    }
                }
            },
        }
        proof {
            let changed = self.state().entries[key];
            before.changed_is_wf(key, changed);
            assert(self.state() =~= before.changed(key, changed));
        }
        match plan {
            RestartPlan::NotRestarted => {
                assert(self.state() =~= before);
            },
            RestartPlan::IntensityExceeded => {
                self.send_event(now, SupervisorEvent::RestartIntensityExceeded);
            },
            RestartPlan::Scheduled(delay) => {
                match strategy {
                    Strategy::OneForOne => {
                        self.send_event(
                            now,
                            SupervisorEvent::ChildRestartScheduled { id, generation, delay },
                        );
                    },
                    Strategy::OneForAll => {
                        let ghost counted = self.state();
                        self.group_restart_deadline = group_deadline;
                        proof {
                            counted.wf_goes_by_children(self.state());
                        }
                        self.send_event(now, SupervisorEvent::GroupRestartScheduled { delay });
                    },
                }
            },
        }
        plan
    }

    /// The children whose restart is due.
    pub fn due_children(&self, now: Duration) -> (r: Vec<usize>)
        requires
            self.state().wf(),
        ensures
            r@ == self.state().due(now),
            forall|i: int| 0 <= i < r@.len() ==> self.state().entries.contains_key(#[trigger] r@[i]),
    {
        let ghost state = self.state();
        let ghost chosen = |key: usize| state.is_due(now, key);
        let mut r: Vec<usize> = Vec::new();
        if self.state != SupervisorState::Running {
            return r;
        }
        let mut i: usize = 0;
        proof {
            reveal(Seq::filter);
        }
        while i < self.child_order.len()
            invariant
                i <= self.child_order.len(),
                state == self.state(),
                state.wf(),
                chosen == (|key: usize| state.is_due(now, key)),
                r@ == state.order.take(i as int).filter(chosen),
                forall|j: int| 0 <= j < r@.len() ==> state.entries.contains_key(#[trigger] r@[j]),
            decreases self.child_order.len() - i,
        {
            let key: usize = self.child_order[i];
            proof {
                reveal(Seq::filter);
                let taken = state.order.take(i as int + 1);
                assert(taken.drop_last() =~= state.order.take(i as int));
                assert(taken.last() == key);
                assert(state.order.to_set().contains(key));
            }
            match slots::entry(&self.children, key) {
                Some(entry) => {
                    if entry.membership == MembershipState::Active {
                        if let Some(deadline) = entry.runtime.next_restart_deadline {
                            if !now.is_shorter_than(deadline) {
                                r.push(key);
                            }
                        }
                    }
                },
                None => {},
            }
            i = i + 1;
        }
        assert(state.order.take(i as int) =~= state.order);
        r
    }

    /// Whether a restart of all children is due.
    pub fn group_restart_due(&self, now: Duration) -> (r: bool)
        ensures
            r == (self.state().state is Running && (self.state().group_deadline matches Some(
                deadline,
            ) && deadline@ <= now@)),
    {
        match self.group_restart_deadline {
            Some(deadline) => self.state == SupervisorState::Running && !now.is_shorter_than(
                deadline,
            ),
            None => false,
        }
    }

    /// The next point in time at which a restart is due.
    pub fn next_deadline(&self) -> (r: Option<Duration>)
        requires
            self.state().wf(),
        ensures
            ({
                let state = self.state();
                let pending = |key: usize|
                    state.entries.contains_key(key) && state.entries[key].membership is Active
                        && state.entries[key].runtime.next_restart_deadline is Some;
                match r {
                    None => state.group_deadline is None && forall|key: usize| !#[trigger]
                        pending(key),
                    Some(first) => {
                        &&& state.group_deadline matches Some(deadline) ==> first@ <= deadline@
                        &&& forall|key: usize| #[trigger]
                            pending(key) ==> first@
                                <= state.entries[key].runtime.next_restart_deadline->Some_0@
                        &&& state.group_deadline == Some(first) || exists|key: usize| #[trigger]
                            pending(key) && state.entries[key].runtime.next_restart_deadline
                                == Some(first)
                    },
                }
            }),
    {
        let ghost state = self.state();
        let ghost pending = |key: usize|
            state.entries.contains_key(key) && state.entries[key].membership is Active
                && state.entries[key].runtime.next_restart_deadline is Some;
        let mut r: Option<Duration> = self.group_restart_deadline;
        let mut i: usize = 0;
        while i < self.child_order.len()
            invariant
                i <= self.child_order.len(),
                state == self.state(),
                state.wf(),
                pending == (|key: usize|
                    state.entries.contains_key(key) && state.entries[key].membership is Active
                        && state.entries[key].runtime.next_restart_deadline is Some),
                match r {
                    None => state.group_deadline is None && forall|j: int|
                        0 <= j < i ==> !pending(#[trigger] state.order[j]),
                    Some(first) => {
                        &&& state.group_deadline matches Some(deadline) ==> first@ <= deadline@
                        &&& forall|j: int|
                            0 <= j < i && pending(#[trigger] state.order[j]) ==> first@
                                <= state.entries[state.order[j]].runtime.next_restart_deadline->Some_0@
                        &&& state.group_deadline == Some(first) || exists|key: usize| #[trigger]
                            pending(key) && state.entries[key].runtime.next_restart_deadline
                                == Some(first)
                    },
                },
            decreases self.child_order.len() - i,
        {
            let key: usize = self.child_order[i];
            assert(state.order[i as int] == key);
            assert(state.order.to_set().contains(key));
            match slots::entry(&self.children, key) {
                Some(entry) => {
                    if entry.membership == MembershipState::Active {
                        if let Some(deadline) = entry.runtime.next_restart_deadline {
                            assert(pending(key));
                            r = match r {
                                Some(first) => {
                                    if deadline.is_shorter_than(first) {
                                        Some(deadline)
                                    } else {
                                        Some(first)
                                    }
                                },
                                None => Some(deadline),
                            };
                        }
                    }
                },
                None => {},
            }
            i = i + 1;
        }
        proof {
            assert forall|key: usize| #[trigger] pending(key) implies state.order.contains(key) by {
                assert(state.order.to_set().contains(key));
            }
            assert forall|key: usize| #[trigger] pending(key) implies r is Some && r->Some_0@
                <= state.entries[key].runtime.next_restart_deadline->Some_0@ by {
                let j = state.order.index_of(key);
                assert(state.order[j] == key);
            }
        }
        r
    }

    /// The reason to stop by itself, if the supervisor has one: nothing runs and
    /// nothing is about to. It is a failure if a child ended with one.
    pub fn completion(&self) -> (r: Option<SupervisorExit>)
        requires
            self.state().wf(),
        ensures
            r == if !self.state().idle() {
                None
            } else if self.state().has_failed() {
                Some(SupervisorExit::Failed)
            } else {
                Some(SupervisorExit::Completed)
            },
    {
        let ghost state = self.state();
        if self.group_restart_deadline.is_some() {
            return None;
        }
        let mut failed = false;
        let mut i: usize = 0;
        while i < self.child_order.len()
            invariant
                i <= self.child_order.len(),
                state == self.state(),
                state.wf(),
                state.group_deadline is None,
                forall|j: int|
                    0 <= j < i && !(state.entries[#[trigger] state.order[j]].membership is Removed)
                        ==> !state.entries[state.order[j]].runtime.state.active()
                        && state.entries[state.order[j]].runtime.next_restart_deadline is None,
                failed == (exists|j: int|
                    0 <= j < i && state.entries[#[trigger] state.order[j]].failed()),
            decreases self.child_order.len() - i,
        {
            let key: usize = self.child_order[i];
            assert(state.order[i as int] == key);
            assert(state.order.to_set().contains(key));
            let ghost failed_before = failed;
            match slots::entry(&self.children, key) {
                Some(entry) => {
                    if entry.membership != MembershipState::Removed {
                        if entry.runtime.state.is_active()
                            || entry.runtime.next_restart_deadline.is_some() {
                            assert(state.entries.contains_key(key));
                            return None;
                        }
                        match &entry.terminal_status {
                            Some(ExitStatusView::Completed) => {},
                            Some(_) => {
                                failed = true;
                            },
                            None => {},
                        }
                    }
                    assert(failed == (failed_before || state.entries[key].failed()));
                },
                None => {},
            }
            i = i + 1;
        }
        proof {
            assert forall|key: usize| #[trigger] state.entries.contains_key(key) implies state.order.contains(
                key,
            ) by {
                assert(state.order.to_set().contains(key));
            }
            assert forall|key: usize| #[trigger]
                state.entries.contains_key(key) && !(state.entries[key].membership is Removed)
                implies !state.entries[key].runtime.state.active()
                && state.entries[key].runtime.next_restart_deadline is None by {
                let j = state.order.index_of(key);
                assert(state.order[j] == key);
            }
            if failed {
                let j = choose|j: int|
                    0 <= j < i && state.entries[#[trigger] state.order[j]].failed();
                let key = state.order[j];
                assert(state.order.to_set().contains(key));
                assert(state.entries.contains_key(key));
            } else if state.has_failed() {
                let key = choose|key: usize| #[trigger]
                    state.entries.contains_key(key) && state.entries[key].failed();
                let j = state.order.index_of(key);
                assert(state.order[j] == key);
            }
        }
        if failed {
            Some(SupervisorExit::Failed)
        } else {
            Some(SupervisorExit::Completed)
        }
    }

    /// Starts the child under `key` again.
    pub fn restart_child(&mut self, key: usize, now: Duration) -> (r: Result<
        SpawnPlan,
        SupervisorError,
    >)
        requires
            old(self).state().wf(),
            old(self).state().has_room(),
            old(self).state().entries.contains_key(key),
        ensures
            final(self).state() == old(self).state().spawned(key),
            final(self).state().wf(),
            final(self).group() == old(self).group(),
            final(self).path() == old(self).path(),
            ({
                let entry = old(self).state().entries[key];
                let started = SupervisorEvent::ChildStarted {
                    id: entry.id,
                    generation: entry.next_generation(),
                };
                &&& r matches Ok(plan) && starts(
                    plan,
                    old(self).state(),
                    old(self).group(),
                    key,
                )
                &&& if entry.runtime.has_started {
                    &&& announced(
                        old(self).unsent(),
                        final(self).unsent().drop_last(),
                        final(self).state(),
                        now,
                        started,
                    )
                    &&& announced(
                        final(self).unsent().drop_last(),
                        final(self).unsent(),
                        final(self).state(),
                        now,
                        SupervisorEvent::ChildRestarted {
                            id: entry.id,
                            old_generation: entry.runtime.generation,
                            new_generation: entry.next_generation(),
                        },
                    )
                } else {
                    announced(
                        old(self).unsent(),
                        final(self).unsent(),
                        final(self).state(),
                        now,
                        started,
                    )
                }
            }),
    {
        let plan = match self.spawn_child(key, now) {
            Ok(plan) => plan,
            Err(error) => {
                return Err(error);
            },
        };
        if let Some(old_generation) = plan.old_generation {
            self.send_event(
                now,
                SupervisorEvent::ChildRestarted {
                    id: plan.context.id.clone(),
                    old_generation,
                    new_generation: plan.generation,
                },
            );
        }
        Ok(plan)
    }
}

} // verus!
