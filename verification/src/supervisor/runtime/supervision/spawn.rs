//! Starting children.

use tokio_util::sync::CancellationToken;
use vstd::prelude::*;

use crate::directory::TaskNumber;
use crate::supervisor::context::{ChildContext, SupervisorToken};
use crate::supervisor::error::SupervisorError;
use crate::supervisor::event::SupervisorEvent;
use crate::supervisor::runtime::child_runtime::RuntimeChildState;
use crate::supervisor::runtime::model::{Core, TaskMeta};
use crate::supervisor::runtime::slots;
use crate::supervisor::runtime::supervision::{announced, SupervisorRuntime};
use crate::text::{append_decimal, decimal};
use crate::time::Duration;
use crate::token::parent_of;

verus! {

/// What it takes to start a child: the context for its factory, and the number
/// under which the end of its task is to be reported.
#[derive(Debug)]
pub struct SpawnPlan {
    /// What the child's factory is to be called with.
    pub context: ChildContext,
    /// The slot of the child.
    pub key: usize,
    /// Which of the children that have used the slot.
    pub instance: u64,
    /// The number of the task.
    pub task: u64,
    /// The generation that the child had before, if it was started before.
    pub old_generation: Option<u64>,
    /// The generation that the child has now.
    pub generation: u64,
}

/// Whether `plan` is for starting the child under `key`, in a supervisor whose
/// state is `before` and whose children's tokens derive from `group`.
pub open spec fn starts(
    plan: SpawnPlan,
    before: Core,
    group: CancellationToken,
    key: usize,
) -> bool {
    let entry = before.entries[key];
    &&& plan.key == key
    &&& plan.instance == entry.instance
    &&& plan.task == before.next_task
    &&& plan.generation == entry.next_generation()
    &&& plan.old_generation == if entry.runtime.has_started {
        Some(entry.runtime.generation)
    } else {
        None
    }
    &&& plan.context.id == entry.id
    &&& plan.context.generation == entry.next_generation()
    &&& parent_of(plan.context.token) == group
    &&& plan.context.supervisor_token.shown() == group
}

/// Whether `error` says that there is no child under `key`.
pub open spec fn slot_missing(error: SupervisorError, key: usize) -> bool {
    error matches SupervisorError::Internal(detail) && detail@ == "missing child slot for key "@
        + decimal(key as nat)
}

fn missing_slot(key: usize) -> (r: SupervisorError)
    ensures
        slot_missing(r, key),
{
    let mut detail = "missing child slot for key ".to_owned();
    append_decimal(&mut detail, key as u64);
    SupervisorError::Internal(detail)
}

impl SupervisorRuntime {
    /// Starts the child under `key`, for the first time or again: it gets a
    /// token of its own and, if it has run before, the next generation.
    pub fn spawn_child(&mut self, key: usize, now: Duration) -> (r: Result<
        SpawnPlan,
        SupervisorError,
    >)
        requires
            old(self).state().wf(),
            old(self).state().has_room(),
        ensures
            final(self).state().wf(),
            final(self).group() == old(self).group(),
            final(self).path() == old(self).path(),
            ({
                let before = old(self).state();
                let entry = before.entries[key];
                match r {
                    Ok(plan) => {
                        &&& before.entries.contains_key(key)
                        &&& final(self).state() == before.spawned(key)
                        &&& starts(plan, before, old(self).group(), key)
                        &&& announced(
                            old(self).unsent(),
                            final(self).unsent(),
                            before.spawned(key),
                            now,
                            SupervisorEvent::ChildStarted {
                                id: entry.id,
                                generation: entry.next_generation(),
                            },
                        )
                    },
                    Err(error) => {
                        &&& !before.entries.contains_key(key)
                        &&& slot_missing(error, key)
                        &&& final(self).state() == before
                        &&& final(self).unsent() == old(self).unsent()
                    },
                }
            }),
    {
        let ghost before = self.state();
        let token = self.group_token.child_token();
        let supervisor_token = SupervisorToken::new(self.group_token.clone());
        let task: u64 = self.next_task;
        let counted_before;
        let instance: u64;
        let old_generation: Option<u64>;
        let generation: u64;
        let id: String;
        match slots::entry_mut(&mut self.children, key) {
            None => {
                return Err(missing_slot(key));
            },
            Some(entry) => {
                counted_before = entry.runtime.state.is_counted();
                instance = entry.instance;
                old_generation = if entry.runtime.has_started {
                    Some(entry.runtime.generation)
                } else {
                    None
                };
                if entry.runtime.has_started && entry.runtime.generation < u64::MAX {
                    entry.runtime.generation = entry.runtime.generation + 1;
                }
                generation = entry.runtime.generation;
                entry.runtime.state = RuntimeChildState::Running;
                entry.runtime.has_started = true;
                entry.runtime.next_restart_deadline = None;
                entry.terminal_status = None;
                entry.nested_snapshot = None;
                id = entry.id.clone();
            },
        }
        proof {
            before.spawned_is_wf(key);
            assert(before.order.len() == self.child_order.len());
        }
        if !counted_before {
            self.running_children = self.running_children + 1;
        }
        self.live_tasks = self.live_tasks + 1;
        let _ = self.task_map.insert(TaskNumber(task), TaskMeta { key, instance, generation });
        self.next_task = task + 1;
        assert(self.state() =~= before.spawned(key));
        self.send_event(now, SupervisorEvent::ChildStarted { id: id.clone(), generation });
        Ok(
            SpawnPlan {
                context: ChildContext { id, generation, token, supervisor_token },
                key,
                instance,
                task,
                old_generation,
                generation,
            },
        )
    }
}

} // verus!
