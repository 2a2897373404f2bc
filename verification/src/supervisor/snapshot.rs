//! The state of a supervisor and its children at one point in time.

use tokio::sync::mpsc;
use vstd::prelude::*;

use crate::queues::{offer, responds, Ledger, TrySendFailure};
use crate::supervisor::error::SupervisorExit;
use crate::supervisor::event::ExitStatusView;
use crate::supervisor::strategy::Strategy;
use crate::text::same_text;
use crate::time::Duration;

verus! {

/// Point-in-time snapshot of a supervisor's state, including the state of every
/// child.
#[derive(Debug, PartialEq, Eq)]
pub struct SupervisorSnapshot {
    /// Current lifecycle state of the supervisor.
    pub state: SupervisorStateView,
    /// The supervisor's last exit reason, if it has stopped.
    pub last_exit: Option<SupervisorExit>,
    /// The restart strategy in use.
    pub strategy: Strategy,
    /// Ordered list of child snapshots, matching the supervisor's child order.
    pub children: Vec<ChildSnapshot>,
}

/// Point-in-time snapshot of a single child.
#[derive(Debug, PartialEq, Eq)]
pub struct ChildSnapshot {
    /// The child's unique identifier.
    pub id: String,
    /// Current generation counter. Incremented on each restart.
    pub generation: u64,
    /// Current lifecycle state.
    pub state: ChildStateView,
    /// Whether the child is active or being removed.
    pub membership: ChildMembershipView,
    /// How the child last exited, if it has exited at least once.
    pub last_exit: Option<ExitStatusView>,
    /// Total number of times the child has been restarted.
    pub restart_count: u64,
    /// Time remaining until the next scheduled restart, if a backoff delay is
    /// pending.
    pub next_restart_in: Option<Duration>,
    /// If the child is itself a nested supervisor, its recursive snapshot.
    pub supervisor: Option<Box<SupervisorSnapshot>>,
}

/// Lifecycle state of a supervisor.
#[derive(Clone, Copy, Debug, PartialEq, Eq, Structural)]
pub enum SupervisorStateView {
    /// The supervisor is running and accepting commands.
    Running,
    /// The supervisor is shutting down (children are being stopped).
    Stopping,
    /// The supervisor has fully stopped.
    Stopped,
}

/// Lifecycle state of a child task.
#[derive(Clone, Copy, Debug, PartialEq, Eq, Structural)]
pub enum ChildStateView {
    /// The child has been created but its task has not yet started running.
    Starting,
    /// The child task is running.
    Running,
    /// The child is in the process of being stopped.
    Stopping,
    /// The child has exited.
    Stopped,
}

/// Whether a child is a permanent member of the supervisor or is being removed.
#[derive(Clone, Copy, Debug, PartialEq, Eq, Structural)]
pub enum ChildMembershipView {
    /// The child is an active member of the supervisor.
    Active,
    /// A removal has been requested and is in progress.
    Removing,
}

/// The first of `children` with the given id.
pub open spec fn first_child(children: Seq<ChildSnapshot>, id: Seq<char>) -> Option<ChildSnapshot>
    decreases children.len(),
{
    if children.len() == 0 {
        None
    } else if children[0].id@ == id {
        Some(children[0])
    } else {
        first_child(children.drop_first(), id)
    }
}

/// The child that a path of ids leads to: each id names a child of the
/// supervisor that the ids before it lead to.
pub open spec fn descend(children: Seq<ChildSnapshot>, path: Seq<Seq<char>>) -> Option<ChildSnapshot>
    decreases path.len(),
{
    if path.len() == 0 {
        None
    } else {
        match first_child(children, path[0]) {
            None => None,
            Some(child) => if path.len() == 1 {
                Some(child)
            } else {
                descend(child.nested(), path.drop_first())
            },
        }
    }
}

/// A path can be walked in two parts: the rest of it from the child that its
/// beginning leads to.
pub proof fn descending_in_parts(
    children: Seq<ChildSnapshot>,
    path: Seq<Seq<char>>,
    rest: Seq<Seq<char>>,
)
    requires
        path.len() > 0,
        rest.len() > 0,
    ensures
        descend(children, path + rest) == match descend(children, path) {
            Some(child) => descend(child.nested(), rest),
            None => None,
        },
    decreases path.len(),
{
    let whole = path + rest;
    assert(whole[0] == path[0]);
    match first_child(children, path[0]) {
        Some(child) => {
            if path.len() == 1 {
                assert(whole.drop_first() =~= rest);
            } else {
                assert(whole.drop_first() =~= path.drop_first() + rest);
                descending_in_parts(child.nested(), path.drop_first(), rest);
            }
        },
        None => {},
    }
}

/// The texts of a path.
pub open spec fn path_texts(path: Seq<&str>) -> Seq<Seq<char>> {
    path.map_values(|segment: &str| segment@)
}

impl SupervisorSnapshot {
    /// Looks up a direct child by id.
    pub fn child(&self, id: &str) -> (r: Option<&ChildSnapshot>)
        ensures
            match r {
                Some(child) => first_child(self.children@, id@) == Some(*child),
                None => first_child(self.children@, id@) is None,
            },
    {
        let mut i: usize = 0;
        assert(self.children@.skip(0) =~= self.children@);
        while i < self.children.len()
            invariant
                i <= self.children.len(),
                first_child(self.children@, id@) == first_child(self.children@.skip(i as int), id@),
            decreases self.children.len() - i,
        {
            proof {
                let rest = self.children@.skip(i as int);
                assert(rest[0] == self.children@[i as int]);
                assert(rest.drop_first() =~= self.children@.skip(i as int + 1));
            }
            if same_text(self.children[i].id.as_str(), id) {
                return Some(&self.children[i]);
            }
            i = i + 1;
        }
        None
    }

    /// Walks a path of child ids through nested supervisors.
    pub fn descendant(&self, path: &[&str]) -> (r: Option<&ChildSnapshot>)
        ensures
            match r {
                Some(child) => descend(self.children@, path_texts(path@)) == Some(*child),
                None => descend(self.children@, path_texts(path@)) is None,
            },
    {
        if path.len() == 0 {
            return None;
        }
        let ghost whole = path_texts(path@);
        let mut child = match self.child(path[0]) {
            Some(child) => child,
            None => return None,
        };
        let mut i: usize = 1;
        assert(whole.skip(0) =~= whole);
        while i < path.len()
            invariant
                1 <= i <= path.len(),
                whole == path_texts(path@),
                descend(self.children@, whole) == if i == path.len() {
                    Some(*child)
                } else {
                    descend(child.nested(), whole.skip(i as int))
                },
            decreases path.len() - i,
        {
            let ghost rest = whole.skip(i as int);
            proof {
                assert(rest[0] == path[i as int]@);
                assert(rest.drop_first() =~= whole.skip(i as int + 1));
            }
            child = match child.child(path[i]) {
                Some(next) => next,
                None => return None,
            };
            i = i + 1;
        }
        Some(child)
    }
}

impl ChildSnapshot {
    /// The children of the nested supervisor, if the child is one.
    pub open spec fn nested(self) -> Seq<ChildSnapshot> {
        match self.supervisor {
            Some(supervisor) => supervisor.children@,
            None => Seq::empty(),
        }
    }

    /// Looks up a grandchild by id within the child's nested supervisor
    /// snapshot. Returns `None` if the child is not a nested supervisor or
    /// has no child with the given id.
    pub fn child(&self, id: &str) -> (r: Option<&ChildSnapshot>)
        ensures
            match r {
                Some(child) => first_child(self.nested(), id@) == Some(*child),
                None => first_child(self.nested(), id@) is None,
            },
    {
        match &self.supervisor {
            Some(supervisor) => supervisor.child(id),
            None => None,
        }
    }

    /// Walks a path through nested supervisor snapshots starting from the
    /// child.
    pub fn descendant(&self, path: &[&str]) -> (r: Option<&ChildSnapshot>)
        ensures
            match r {
                Some(child) => descend(self.nested(), path_texts(path@)) == Some(*child),
                None => descend(self.nested(), path_texts(path@)) is None,
            },
    {
        match &self.supervisor {
            Some(supervisor) => supervisor.descendant(path),
            None => None,
        }
    }
}

/// Whether two snapshots say the same.
pub open spec fn same_snapshot(a: SupervisorSnapshot, b: SupervisorSnapshot) -> bool
    decreases a,
{
    &&& a.state == b.state
    &&& a.last_exit == b.last_exit
    &&& a.strategy == b.strategy
    &&& a.children@.len() == b.children@.len()
    &&& forall|i: int|
        0 <= i < a.children@.len() ==> same_child(#[trigger] a.children@[i], b.children@[i])
}

/// Whether two child snapshots say the same.
pub open spec fn same_child(a: ChildSnapshot, b: ChildSnapshot) -> bool
    decreases a,
{
    &&& a.id@ == b.id@
    &&& a.generation == b.generation
    &&& a.state == b.state
    &&& a.membership == b.membership
    &&& a.last_exit == b.last_exit
    &&& a.restart_count == b.restart_count
    &&& a.next_restart_in == b.next_restart_in
    &&& match (a.supervisor, b.supervisor) {
        (Some(x), Some(y)) => same_snapshot(*x, *y),
        (None, None) => true,
        _ => false,
    }
}

/// Two snapshots say the same if their own fields agree and their children say
/// the same one by one.
proof fn same_children(a: SupervisorSnapshot, b: SupervisorSnapshot)
    requires
        a.state == b.state,
        a.last_exit == b.last_exit,
        a.strategy == b.strategy,
        a.children@.len() == b.children@.len(),
        forall|i: int|
            0 <= i < a.children@.len() ==> same_child(#[trigger] a.children@[i], b.children@[i]),
    ensures
        same_snapshot(a, b),
{
}

impl Clone for SupervisorSnapshot {
    fn clone(&self) -> (r: Self)
        ensures
            same_snapshot(*self, r),
        decreases self,
    {
        let mut children: Vec<ChildSnapshot> = Vec::new();
        let mut i: usize = 0;
        while i < self.children.len()
            invariant
                i <= self.children.len(),
                children@.len() == i,
                forall|j: int|
                    0 <= j < i ==> same_child(#[trigger] self.children@[j], children@[j]),
            decreases self.children.len() - i,
        {
            children.push(self.children[i].clone());
            i = i + 1;
        }
        let r = SupervisorSnapshot {
            state: self.state,
            last_exit: self.last_exit,
            strategy: self.strategy,
            children,
        };
        proof {
            same_children(*self, r);
        }
        r
    }
}

impl Clone for ChildSnapshot {
    fn clone(&self) -> (r: Self)
        ensures
            same_child(*self, r),
        decreases self,
    {
        ChildSnapshot {
            id: self.id.clone(),
            generation: self.generation,
            state: self.state,
            membership: self.membership,
            last_exit: match &self.last_exit {
                Some(status) => Some(status.clone()),
                None => None,
            },
            restart_count: self.restart_count,
            next_restart_in: self.next_restart_in,
            supervisor: match &self.supervisor {
                Some(supervisor) => Some(Box::new((&**supervisor).clone())),
                None => None,
            },
        }
    }
}

/// Tells a parent supervisor that the snapshot of a nested one has changed.
#[derive(Clone, Copy, Debug, PartialEq, Eq, Structural)]
pub struct NestedSnapshotNotification {
    /// The slot of the child in the parent.
    pub parent_key: usize,
    /// Which of the children that have used the slot.
    pub parent_instance: u64,
    /// The generation of the child.
    pub generation: u64,
}

/// Coalescing state for nested supervisor snapshot updates.
///
/// While a notification is in flight, further updates replace the stored
/// snapshot but send no other notification. The parent takes the latest
/// snapshot when it gets to the notification.
#[derive(Debug)]
pub struct NestedSnapshotState {
    latest: Option<SupervisorSnapshot>,
    queued: bool,
}

impl Default for NestedSnapshotState {
    fn default() -> (r: Self)
        ensures
            r.stored() is None,
            !r.in_flight(),
    {
        NestedSnapshotState { latest: None, queued: false }
    }
}

impl NestedSnapshotState {
    /// The latest snapshot, if there has been one.
    pub closed spec fn stored(&self) -> Option<SupervisorSnapshot> {
        self.latest
    }

    /// Whether a notification is in flight.
    pub closed spec fn in_flight(&self) -> bool {
        self.queued
    }

    /// Forgets everything.
    pub fn clear(&mut self)
        ensures
            final(self).stored() is None,
            !final(self).in_flight(),
    {
        self.latest = None;
        self.queued = false;
    }

    /// Stores a snapshot in place of an earlier one.
    pub fn replace(&mut self, snapshot: SupervisorSnapshot)
        ensures
            final(self).stored() == Some(snapshot),
            final(self).in_flight() == old(self).in_flight(),
    {
        self.latest = Some(snapshot);
    }

    /// The latest snapshot, if there has been one.
    pub fn latest(&self) -> (r: Option<SupervisorSnapshot>)
        ensures
            match (r, self.stored()) {
                (Some(copy), Some(snapshot)) => same_snapshot(snapshot, copy),
                (None, None) => true,
                _ => false,
            },
    {
        match &self.latest {
            Some(snapshot) => Some(snapshot.clone()),
            None => None,
        }
    }

    /// Attempts to mark a notification as queued. Returns `true` if it is up to
    /// the caller to send one, `false` if one is already in flight.
    pub fn try_queue(&mut self) -> (r: bool)
        ensures
            r == !old(self).in_flight(),
            final(self).in_flight(),
            final(self).stored() == old(self).stored(),
    {
        let was_queued = self.queued;
        self.queued = true;
        !was_queued
    }

    /// Notes that no notification is in flight any more.
    pub fn mark_dequeued(&mut self)
        ensures
            !final(self).in_flight(),
            final(self).stored() == old(self).stored(),
    {
        self.queued = false;
    }

    /// Goes on after an attempt to send a notification without waiting. A
    /// notification that found no room is handed back, to be sent when there is
    /// some; one that nobody can receive any more is dropped.
    pub fn settle(
        &mut self,
        outcome: Result<(), TrySendFailure<NestedSnapshotNotification>>,
    ) -> (r: Option<NestedSnapshotNotification>)
        ensures
            final(self).stored() == old(self).stored(),
            final(self).in_flight() == (old(self).in_flight() && !(outcome matches Err(failure)
                && failure is Closed)),
            r == match outcome {
                Err(TrySendFailure::Full(notification)) => Some(notification),
                _ => None,
            },
    {
        match outcome {
            Ok(()) => None,
            Err(TrySendFailure::Full(notification)) => Some(notification),
            Err(TrySendFailure::Closed(_)) => {
                self.mark_dequeued();
                None
            },
        }
    }
}

/// Forwards the snapshots of a nested supervisor to its parent.
#[derive(Debug)]
pub struct NestedSnapshotForwarder {
    notifications: mpsc::Sender<NestedSnapshotNotification>,
    notification: NestedSnapshotNotification,
}

impl NestedSnapshotForwarder {
    /// What it tells the parent.
    pub closed spec fn message(&self) -> NestedSnapshotNotification {
        self.notification
    }

    /// The channel to the parent.
    pub closed spec fn outlet(&self) -> mpsc::Sender<NestedSnapshotNotification> {
        self.notifications
    }

    /// A forwarder for the child in a slot of the parent.
    pub fn new(
        notifications: mpsc::Sender<NestedSnapshotNotification>,
        parent_key: usize,
        parent_instance: u64,
        generation: u64,
    ) -> (r: Self)
        ensures
            r.message() == (NestedSnapshotNotification { parent_key, parent_instance, generation }),
            r.outlet() == notifications,
    {
        NestedSnapshotForwarder {
            notifications,
            notification: NestedSnapshotNotification { parent_key, parent_instance, generation },
        }
    }

    /// The channel on which to wait for room.
    pub fn notifications(&self) -> (r: &mpsc::Sender<NestedSnapshotNotification>)
        ensures
            *r == self.outlet(),
    {
        &self.notifications
    }

    /// Stores a snapshot for the parent and tells it, unless it has been told
    /// and not looked yet. A notification for which there is no room is
    /// returned, to be sent when there is some.
    pub fn forward(&self, state: &mut NestedSnapshotState, snapshot: SupervisorSnapshot) -> (r:
        Option<NestedSnapshotNotification>)
        ensures
            final(state).stored() == Some(snapshot),
            if old(state).in_flight() {
                r is None && final(state).in_flight()
            } else {
                exists|outcome: Result<(), TrySendFailure<NestedSnapshotNotification>>| #[trigger]
                    responds(self.outlet(), self.message(), outcome) && match outcome {
                        Ok(()) => r is None && final(state).in_flight(),
                        Err(TrySendFailure::Full(_)) => r == Some(self.message())
                            && final(state).in_flight(),
                        Err(TrySendFailure::Closed(_)) => r is None && !final(state).in_flight(),
                    }
            },
    {
        state.replace(snapshot);
        if !state.try_queue() {
            return None;
        }
        let mut ledger = Ledger::new();
        let outcome = offer(&self.notifications, self.notification, &mut ledger);
        assert(responds(self.outlet(), self.message(), outcome));
        state.settle(outcome)
    }
}

/// Looking a child up by its id finds one with that id, and the first of them; it
/// finds none exactly if there is none.
pub proof fn lookups_find_the_first(children: Seq<ChildSnapshot>, id: Seq<char>)
    ensures
        match first_child(children, id) {
            Some(found) => exists|i: int|
                0 <= i < children.len() && #[trigger] children[i] == found && found.id@ == id && (
                forall|j: int| 0 <= j < i ==> (#[trigger] children[j]).id@ != id),
            None => forall|i: int| 0 <= i < children.len() ==> (#[trigger] children[i]).id@ != id,
        },
    decreases children.len(),
{
    if children.len() > 0 {
        if children[0].id@ == id {
            assert(children[0] == first_child(children, id)->Some_0);
        } else {
            let rest = children.drop_first();
            lookups_find_the_first(rest, id);
            match first_child(rest, id) {
                Some(found) => {
                    let i = choose|i: int|
                        0 <= i < rest.len() && #[trigger] rest[i] == found && found.id@ == id && (
                        forall|j: int| 0 <= j < i ==> (#[trigger] rest[j]).id@ != id);
                    assert(children[i + 1] == found);
                    assert forall|j: int| 0 <= j < i + 1 implies (#[trigger] children[j]).id@
                        != id by {
                        if j > 0 {
                            assert(rest[j - 1] == children[j]);
                        }
                    }
                },
                None => {
                    assert forall|i: int| 0 <= i < children.len() implies (
                    #[trigger] children[i]).id@ != id by {
                        if i > 0 {
                            assert(rest[i - 1] == children[i]);
                        }
                    }
                },
            }
        }
    }
}

} // verus!
