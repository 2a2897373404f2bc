//! What becomes of children whose tasks end.

use vstd::prelude::*;

use crate::directory::TaskNumber;
use crate::supervisor::error::SupervisorError;
use crate::supervisor::event::{ExitStatusView, SupervisorEvent};
use crate::supervisor::runtime::child_runtime::{MembershipState, RuntimeChildState};
use crate::supervisor::runtime::exit::ExitStatus;
use crate::supervisor::runtime::model::Core;
use crate::supervisor::runtime::slots;
use crate::supervisor::runtime::supervision::{announced, SupervisorRuntime};
use crate::text::{append_decimal, decimal};
use crate::time::Duration;

verus! {

/// What the end of a task was.
#[derive(Debug)]
pub enum ExitRecord {
    /// The end of an incarnation that has been superseded, or of a child that
    /// is gone.
    Stale,
    /// The end of the child under `key`.
    Exited {
        /// The slot of the child.
        key: usize,
        /// Whether it counts as a failure.
        failure: bool,
    },
    /// The end of a child that was to be removed, and is now.
    Removed {
        /// The slot that the child was in.
        key: usize,
    },
}

/// Whether `after` is the state once the end of a task was taken note of: the
/// task is off the books, and the child whose present incarnation it was has
/// stopped, or is gone if it was to be removed.
pub open spec fn exit_taken(before: Core, task: nat, after: Core) -> bool {
    let meta = before.tasks[task];
    let rest = before.without_task(task);
    &&& before.tasks.contains_key(task)
    &&& if !before.is_current(meta) {
        after == rest
    } else if before.entries[meta.key].membership is Active {
        exists|status: ExitStatusView| after == #[trigger] rest.exited(meta.key, status)
    } else {
        after == rest.vacated(meta.key)
    }
}

/// Whether `error` says that no task has the number.
pub open spec fn task_unknown(error: SupervisorError, task: u64) -> bool {
    error matches SupervisorError::Internal(detail) && detail@ == "unknown task "@ + decimal(
        task as nat,
    )
}

fn unknown_task(task: u64) -> (r: SupervisorError)
    ensures
        task_unknown(r, task),
{
    let mut detail = "unknown task ".to_owned();
    append_decimal(&mut detail, task);
    SupervisorError::Internal(detail)
}

impl SupervisorRuntime {
    /// Takes the child under `key` out of its slot.
    pub(super) fn vacate(&mut self, key: usize)
        requires
            old(self).state().sound(),
            old(self).state().backed_but(key),
            old(self).state().entries.contains_key(key),
        ensures
            final(self).state() == old(self).state().vacated(key),
            final(self).state().wf(),
            final(self).unsent() == old(self).unsent(),
            final(self).group() == old(self).group(),
            final(self).path() == old(self).path(),
    {
        let ghost before = self.state();
        proof {
            before.vacated_is_wf(key);
        }
        let removed = slots::vacate(&mut self.children, key);
        let counted = match removed {
            Some(entry) => entry.runtime.state.is_counted(),
            None => false,
        };
        if counted {
            self.running_children = self.running_children - 1;
        }
        let mut i: usize = 0;
        while i < self.child_order.len() && self.child_order[i] != key
            invariant
                i <= self.child_order.len(),
                forall|j: int| 0 <= j < i ==> self.child_order@[j] != key,
            decreases self.child_order.len() - i,
        {
            i = i + 1;
        }
        proof {
            let at = before.order.index_of(key);
            assert(before.order[at] == key);
        }
        let _ = self.child_order.remove(i);
        assert(self.state() =~= before.vacated(key));
    }

    /// Takes note of the end of a task.
    ///
    /// The child that it belongs to has stopped by that, unless a later
    /// incarnation has taken its place. If the child was to be removed, it is.
    pub fn record_exit(&mut self, task: u64, status: ExitStatus, now: Duration) -> (r: Result<
        ExitRecord,
        SupervisorError,
    >)
        requires
            old(self).state().wf(),
        ensures
            final(self).state().wf(),
            final(self).group() == old(self).group(),
            final(self).path() == old(self).path(),
            r is Ok ==> exit_taken(old(self).state(), task as nat, final(self).state()),
            ({
                let before = old(self).state();
                let meta = before.tasks[task as nat];
                let rest = before.without_task(task as nat);
                let entry = before.entries[meta.key];
                match r {
                    Err(error) => {
                        &&& !before.tasks.contains_key(task as nat)
                        &&& task_unknown(error, task)
                        &&& final(self).state() == before
                        &&& final(self).unsent() == old(self).unsent()
                    },
                    Ok(ExitRecord::Stale) => {
                        &&& before.tasks.contains_key(task as nat)
                        &&& !before.is_current(meta)
                        &&& final(self).state() == rest
                        &&& final(self).unsent() == old(self).unsent()
                    },
                    Ok(ExitRecord::Exited { key, failure }) => {
                        &&& before.tasks.contains_key(task as nat)
                        &&& before.is_current(meta)
                        &&& key == meta.key
                        &&& failure == status.failure()
                        &&& entry.membership is Active
                        &&& exists|view: ExitStatusView| #[trigger]
                            status.shown_as(view) && final(self).state() == rest.exited(key, view)
                                && announced(
                                old(self).unsent(),
                                final(self).unsent(),
                                final(self).state(),
                                now,
                                SupervisorEvent::ChildExited {
                                    id: entry.id,
                                    generation: meta.generation,
                                    status: view,
                                },
                            )
                    },
                    Ok(ExitRecord::Removed { key }) => {
                        &&& before.tasks.contains_key(task as nat)
                        &&& before.is_current(meta)
                        &&& key == meta.key
                        &&& !(entry.membership is Active)
                        &&& final(self).state() == rest.vacated(key)
                        &&& entry.membership is Removed ==> final(self).unsent() == old(
                            self,
                        ).unsent()
                        &&& entry.membership is Removing ==> exists|view: ExitStatusView|
                            #[trigger]
                            status.shown_as(view) && announced(
                                old(self).unsent(),
                                final(self).unsent().drop_last(),
                                rest.exited(key, view),
                                now,
                                SupervisorEvent::ChildExited {
                                    id: entry.id,
                                    generation: meta.generation,
                                    status: view,
                                },
                            ) && announced(
                                final(self).unsent().drop_last(),
                                final(self).unsent(),
                                final(self).state(),
                                now,
                                SupervisorEvent::ChildRemoved { id: entry.id },
                            )
                    },
                }
            }),
    {
        let ghost before = self.state();
        let meta = match self.task_map.remove(&TaskNumber(task)) {
            Some(meta) => meta,
            None => {
                assert(self.state().tasks =~= before.tasks);
                assert(self.state() =~= before);
                return Err(unknown_task(task));
            },
        };
        let ghost rest = before.without_task(task as nat);
        proof {
            before.without_task_is_sound(task as nat);
        }
        self.live_tasks = self.live_tasks - 1;
        assert(self.state() =~= rest);
        let key: usize = meta.key;
        let (membership, id) = match slots::entry(&self.children, key) {
            Some(entry) => {
                if entry.instance != meta.instance || entry.runtime.generation != meta.generation {
                    return Ok(ExitRecord::Stale);
                }
                (entry.membership, entry.id.clone())
            },
            None => {
                return Ok(ExitRecord::Stale);
            },
        };
        if membership == MembershipState::Removed {
            self.vacate(key);
            return Ok(ExitRecord::Removed { key });
        }
        let failure = status.is_failure();
        let view = status.view_status();
        let ghost shown = view;
        let last_exit = view.clone();
        let event_status = view.clone();
        let mut counted = false;
        match slots::entry_mut(&mut self.children, key) {
            Some(entry) => {
                counted = entry.runtime.state.is_counted();
                entry.runtime.state = RuntimeChildState::Stopped;
                entry.last_exit = Some(last_exit);
                entry.terminal_status = Some(view);
            },
            None => {},
        }
        proof {
            rest.exited_is_wf(key, shown);
        }
        if counted {
            self.running_children = self.running_children - 1;
        }
        assert(self.state() =~= rest.exited(key, shown));
        self.send_event(
            now,
            SupervisorEvent::ChildExited {
                id: id.clone(),
                generation: meta.generation,
                status: event_status,
            },
        );
        if membership == MembershipState::Removing {
            self.vacate(key);
            assert(self.state() =~= rest.vacated(key)) by {
                assert(self.state().entries =~= rest.vacated(key).entries);
            }
            self.send_event(now, SupervisorEvent::ChildRemoved { id });
            return Ok(ExitRecord::Removed { key });
        }
        Ok(ExitRecord::Exited { key, failure })
    }
}

} // verus!
