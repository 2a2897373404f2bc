//! A running supervisor.
//!
//! Nothing here waits, spawns or sends. Each step takes what has happened and
//! leaves what is to be done: tasks to spawn or abort, and publications to send.

use slab::Slab;
use tokio_util::sync::CancellationToken;
use vstd::prelude::*;

use crate::directory::{Directory, TaskNumber};
use crate::supervisor::error::SupervisorExit;
use crate::supervisor::event::SupervisorEvent;
use crate::supervisor::restart::RestartIntensity;
use crate::supervisor::runtime::child_runtime::{ChildEntry, MembershipState, RuntimeChildState};
use crate::supervisor::runtime::model::{Core, SupervisorState, TaskMeta};
use crate::supervisor::runtime::slots;
use crate::supervisor::runtime::slots::entries_of;
use crate::supervisor::snapshot::{
    ChildMembershipView, ChildSnapshot, ChildStateView, SupervisorSnapshot, SupervisorStateView,
};
use crate::supervisor::strategy::Strategy;
use crate::text::texts;
use crate::time::Duration;

pub mod exits;
pub mod groups;
pub mod membership;
pub mod restarts;
pub mod shutdown;
pub mod spawn;
pub mod steps;
pub mod stop;

verus! {

/// An event, together with the snapshot that is to be published before it.
#[derive(Debug)]
pub struct Publication {
    /// The state at the time of the event.
    pub snapshot: SupervisorSnapshot,
    /// What happened.
    pub event: SupervisorEvent,
}

/// Whether `after` is `before` with one publication more: `event`, with a
/// snapshot of the supervisor as `state` has it at `now`.
pub open spec fn announced(
    before: Seq<Publication>,
    after: Seq<Publication>,
    state: Core,
    now: Duration,
    event: SupervisorEvent,
) -> bool {
    &&& after.len() == before.len() + 1
    &&& after.drop_last() == before
    &&& after.last().event == event
    &&& state.shown_as(now, after.last().snapshot)
}

/// The state of a running supervisor.
#[derive(Debug)]
pub struct SupervisorRuntime {
    strategy: Strategy,
    default_intensity: RestartIntensity,
    children: Slab<ChildEntry>,
    child_order: Vec<usize>,
    state: SupervisorState,
    last_exit: Option<SupervisorExit>,
    running_children: usize,
    live_tasks: usize,
    task_map: Directory<TaskNumber, TaskMeta>,
    next_task: u64,
    next_instance: u64,
    group_restart_deadline: Option<Duration>,
    group_token: CancellationToken,
    path_prefix: Vec<String>,
    outbox: Vec<Publication>,
}

impl SupervisorRuntime {
    /// What the supervisor decides by.
    pub closed spec fn state(&self) -> Core {
        Core {
            strategy: self.strategy,
            default_intensity: self.default_intensity,
            entries: entries_of(self.children),
            order: self.child_order@,
            state: self.state,
            last_exit: self.last_exit,
            running: self.running_children as nat,
            live: self.live_tasks as nat,
            tasks: self.task_map@,
            next_task: self.next_task as nat,
            next_instance: self.next_instance as nat,
            group_deadline: self.group_restart_deadline,
        }
    }

    /// The publications that have not been sent yet.
    pub closed spec fn unsent(&self) -> Seq<Publication> {
        self.outbox@
    }

    /// The token from which those of the children derive.
    pub closed spec fn group(&self) -> CancellationToken {
        self.group_token
    }

    /// The path of the supervisor below the root.
    pub closed spec fn path(&self) -> Seq<Seq<char>> {
        texts(self.path_prefix@)
    }

    /// Takes the publications that have not been sent yet.
    pub fn take_publications(&mut self) -> (r: Vec<Publication>)
        ensures
            r@ == old(self).unsent(),
            final(self).unsent().len() == 0,
            final(self).state() == old(self).state(),
            final(self).group() == old(self).group(),
            final(self).path() == old(self).path(),
    {
        let mut taken: Vec<Publication> = Vec::new();
        std::mem::swap(&mut taken, &mut self.outbox);
        taken
    }

    /// Whether there is room for `n` more tasks.
    pub fn has_room(&self, n: usize) -> (r: bool)
        ensures
            r == self.state().has_room_for(n as nat),
    {
        n <= usize::MAX - self.live_tasks && n as u64 <= u64::MAX - self.next_task
    }

    /// Whether there is room for one more child.
    pub fn can_enroll(&self) -> (r: bool)
        ensures
            r == (self.state().next_instance < u64::MAX),
    {
        self.next_instance < u64::MAX
    }

    /// The supervisor's state as it is shown to the outside.
    pub fn snapshot(&self, now: Duration) -> (r: SupervisorSnapshot)
        requires
            self.state().wf(),
        ensures
            self.state().shown_as(now, r),
    {
        let ghost state = self.state();
        let ghost kept = |key: usize| !(state.entries[key].membership is Removed);
        let mut children: Vec<ChildSnapshot> = Vec::new();
        let mut i: usize = 0;
        proof {
            reveal(Seq::filter);
        }
        while i < self.child_order.len()
            invariant
                i <= self.child_order.len(),
                state == self.state(),
                state.wf(),
                kept == (|key: usize| !(state.entries[key].membership is Removed)),
                children@.len() == state.order.take(i as int).filter(kept).len(),
                forall|j: int|
                    0 <= j < children@.len() ==> state.entries[state.order.take(i as int).filter(
                        kept,
                    )[j]].shown_as(now, #[trigger] children@[j]),
            decreases self.child_order.len() - i,
        {
            let key: usize = self.child_order[i];
            proof {
                reveal(Seq::filter);
                let taken = state.order.take(i as int + 1);
                assert(taken.drop_last() =~= state.order.take(i as int));
                assert(taken.last() == key);
                assert(state.order.to_set().contains(key));
            }
            match slots::entry(&self.children, key) {
                Some(entry) => {
                    if entry.membership != MembershipState::Removed {
                        children.push(child_snapshot(entry, now));
                    }
                },
                None => {},
            }
            i = i + 1;
        }
        assert(state.order.take(i as int) =~= state.order);
        assert(state.members() == state.order.filter(kept));
        SupervisorSnapshot {
            state: match self.state {
                SupervisorState::Running => SupervisorStateView::Running,
                SupervisorState::Stopping => SupervisorStateView::Stopping,
                SupervisorState::Stopped => SupervisorStateView::Stopped,
            },
            last_exit: self.last_exit,
            strategy: self.strategy,
            children,
        }
    }

    /// Adds an event to the publications, with a snapshot of the state that it
    /// is about.
    fn send_event(&mut self, now: Duration, event: SupervisorEvent)
        requires
            old(self).state().wf(),
        ensures
            final(self).state() == old(self).state(),
            final(self).group() == old(self).group(),
            final(self).path() == old(self).path(),
            announced(old(self).unsent(), final(self).unsent(), old(self).state(), now, event),
    {
        let snapshot = self.snapshot(now);
        self.outbox.push(Publication { snapshot, event });
        assert(self.outbox@.drop_last() =~= old(self).outbox@);
    }
}

/// A child as it is shown to the outside.
fn child_snapshot(entry: &ChildEntry, now: Duration) -> (r: ChildSnapshot)
    ensures
        entry.shown_as(now, r),
{
    ChildSnapshot {
        id: entry.id.clone(),
        generation: entry.runtime.generation,
        state: match entry.runtime.state {
            RuntimeChildState::Starting => ChildStateView::Starting,
            RuntimeChildState::Running => ChildStateView::Running,
            RuntimeChildState::Stopping => ChildStateView::Stopping,
            RuntimeChildState::Stopped => ChildStateView::Stopped,
        },
        membership: match entry.membership {
            MembershipState::Active => ChildMembershipView::Active,
            _ => ChildMembershipView::Removing,
        },
        last_exit: match &entry.last_exit {
            Some(status) => Some(status.clone()),
            None => None,
        },
        restart_count: entry.restart_count,
        next_restart_in: match entry.runtime.next_restart_deadline {
            Some(deadline) => Some(deadline.saturating_sub(now)),
            None => None,
        },
        supervisor: match &entry.nested_snapshot {
            Some(nested) => Some(Box::new(nested.clone())),
            None => None,
        },
    }
}

} // verus!
