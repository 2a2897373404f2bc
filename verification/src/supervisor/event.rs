//! What a supervisor reports.

use vstd::prelude::*;

use crate::time::Duration;

verus! {

/// Snapshot of how a child task exited.
///
/// The error value, if any, is kept as the text that it displays.
#[derive(Debug, PartialEq, Eq)]
pub enum ExitStatusView {
    /// The child returned cleanly.
    Completed,
    /// The child returned an error, which displays itself like this.
    Failed(String),
    /// The child task panicked.
    Panicked,
    /// The child task was aborted by the supervisor.
    Aborted,
}

impl Clone for ExitStatusView {
    fn clone(&self) -> (r: Self)
        ensures
            r == *self,
    {
        match self {
            ExitStatusView::Completed => ExitStatusView::Completed,
            ExitStatusView::Failed(message) => ExitStatusView::Failed(message.clone()),
            ExitStatusView::Panicked => ExitStatusView::Panicked,
            ExitStatusView::Aborted => ExitStatusView::Aborted,
        }
    }
}

/// One segment of a [`SupervisorEvent::Nested`] path, identifying which child
/// supervisor forwarded the event.
#[derive(Debug, PartialEq, Eq)]
pub struct EventPathSegment {
    /// The child id of the nested supervisor that forwarded the event.
    pub id: String,
    /// The generation of that child at the time the event was forwarded.
    pub generation: u64,
}

impl Clone for EventPathSegment {
    fn clone(&self) -> (r: Self)
        ensures
            r == *self,
    {
        EventPathSegment { id: self.id.clone(), generation: self.generation }
    }
}

/// Lifecycle event emitted by a supervisor.
#[derive(Debug, PartialEq, Eq)]
pub enum SupervisorEvent {
    /// The supervisor has started and all initial children are being spawned.
    SupervisorStarted,
    /// The supervisor is beginning its shutdown sequence.
    SupervisorStopping,
    /// The supervisor has fully stopped. No further events will be emitted.
    SupervisorStopped,
    /// An event forwarded from a nested (child) supervisor. Nested events form
    /// a recursive wrapper; use [`path`](SupervisorEvent::path) or
    /// [`leaf`](SupervisorEvent::leaf) to unwrap.
    Nested {
        /// Child id of the nested supervisor.
        id: String,
        /// Generation of that child.
        generation: u64,
        /// The inner event from the nested supervisor.
        event: Box<SupervisorEvent>,
    },
    /// A child task has been spawned and is now running.
    ChildStarted {
        /// Child identifier.
        id: String,
        /// Generation counter for the spawn.
        generation: u64,
    },
    /// A runtime removal of the child has been requested.
    ChildRemoveRequested {
        /// Child identifier.
        id: String,
    },
    /// The child has been fully removed from the supervisor.
    ChildRemoved {
        /// Child identifier.
        id: String,
    },
    /// A child task exited (cleanly, with an error, by panic, or by abort).
    ChildExited {
        /// Child identifier.
        id: String,
        /// Generation that exited.
        generation: u64,
        /// How the child exited.
        status: ExitStatusView,
    },
    /// A restart for the child has been scheduled after a backoff delay.
    ChildRestartScheduled {
        /// Child identifier.
        id: String,
        /// Generation that exited and will be replaced.
        generation: u64,
        /// How long the supervisor will wait before respawning.
        delay: Duration,
    },
    /// A child has been successfully restarted with a new generation.
    ChildRestarted {
        /// Child identifier.
        id: String,
        /// Generation that exited.
        old_generation: u64,
        /// Generation of the newly spawned replacement.
        new_generation: u64,
    },
    /// A group restart has been scheduled after a backoff delay.
    GroupRestartScheduled {
        /// How long the supervisor will wait before restarting all children.
        delay: Duration,
    },
    /// The restart intensity limit was exceeded.
    RestartIntensityExceeded,
}

impl Clone for SupervisorEvent {
    fn clone(&self) -> (r: Self)
        ensures
            r == *self,
        decreases self,
    {
        match self {
            SupervisorEvent::SupervisorStarted => SupervisorEvent::SupervisorStarted,
            SupervisorEvent::SupervisorStopping => SupervisorEvent::SupervisorStopping,
            SupervisorEvent::SupervisorStopped => SupervisorEvent::SupervisorStopped,
            SupervisorEvent::Nested { id, generation, event } => SupervisorEvent::Nested {
                id: id.clone(),
                generation: *generation,
                event: Box::new((&**event).clone()),
            },
            SupervisorEvent::ChildStarted { id, generation } => SupervisorEvent::ChildStarted {
                id: id.clone(),
                generation: *generation,
            },
            SupervisorEvent::ChildRemoveRequested { id } => SupervisorEvent::ChildRemoveRequested {
                id: id.clone(),
            },
            SupervisorEvent::ChildRemoved { id } => SupervisorEvent::ChildRemoved {
                id: id.clone(),
            },
            SupervisorEvent::ChildExited { id, generation, status } =>
                SupervisorEvent::ChildExited {
                id: id.clone(),
                generation: *generation,
                status: status.clone(),
            },
            SupervisorEvent::ChildRestartScheduled { id, generation, delay } =>
                SupervisorEvent::ChildRestartScheduled {
                id: id.clone(),
                generation: *generation,
                delay: *delay,
            },
            SupervisorEvent::ChildRestarted { id, old_generation, new_generation } =>
                SupervisorEvent::ChildRestarted {
                id: id.clone(),
                old_generation: *old_generation,
                new_generation: *new_generation,
            },
            SupervisorEvent::GroupRestartScheduled { delay } =>
                SupervisorEvent::GroupRestartScheduled { delay: *delay },
            SupervisorEvent::RestartIntensityExceeded => SupervisorEvent::RestartIntensityExceeded,
        }
    }
}

impl SupervisorEvent {
    /// The nested supervisors that the event came through, outermost first.
    pub open spec fn route(self) -> Seq<EventPathSegment>
        decreases self,
    {
        match self {
            SupervisorEvent::Nested { id, generation, event } => seq![
                EventPathSegment { id, generation },
            ] + (*event).route(),
            _ => Seq::empty(),
        }
    }

    /// The event without its wrappers.
    pub open spec fn innermost(self) -> SupervisorEvent
        decreases self,
    {
        match self {
            SupervisorEvent::Nested { event, .. } => (*event).innermost(),
            event => event,
        }
    }

    /// Returns the nested-supervisor path leading to this event.
    ///
    /// For non-nested events the path is empty. For events wrapped in one or
    /// more [`Nested`](SupervisorEvent::Nested) layers, each layer contributes
    /// one [`EventPathSegment`].
    pub fn path(&self) -> (r: Vec<EventPathSegment>)
        ensures
            r@ == self.route(),
    {
        let mut path: Vec<EventPathSegment> = Vec::new();
        self.collect_path(&mut path);
        assert(path@ =~= self.route());
        path
    }

    /// Unwraps any [`Nested`](SupervisorEvent::Nested) wrappers and returns
    /// the innermost (leaf) event.
    pub fn leaf(&self) -> (r: &Self)
        ensures
            *r == self.innermost(),
        decreases self,
    {
        match self {
            SupervisorEvent::Nested { event, .. } => event.leaf(),
            event => event,
        }
    }

    fn collect_path(&self, path: &mut Vec<EventPathSegment>)
        ensures
            final(path)@ == old(path)@ + self.route(),
        decreases self,
    {
        if let SupervisorEvent::Nested { id, generation, event } = self {
            path.push(EventPathSegment { id: id.clone(), generation: *generation });
            event.collect_path(path);
        }
        assert(path@ =~= old(path)@ + self.route());
    }
}

/// An event that is no wrapper is its own leaf and has an empty path. A leaf is
/// never a wrapper.
pub proof fn leaves_are_not_nested(event: SupervisorEvent)
    ensures
        !(event.innermost() is Nested),
        event.innermost().innermost() == event.innermost(),
        event.innermost().route().len() == 0,
        event is Nested || (event.innermost() == event && event.route().len() == 0),
    decreases event,
{
    if let SupervisorEvent::Nested { event: inner, .. } = event {
        leaves_are_not_nested(*inner);
    }
}

/// What a parent supervisor does to the events of a nested one: it wraps them
/// in the identity of the child that they come from.
#[derive(Debug)]
pub struct NestedEventForwarder {
    parent_id: String,
    generation: u64,
}

impl NestedEventForwarder {
    /// The segment that it adds to the paths of events.
    pub closed spec fn segment(&self) -> EventPathSegment {
        EventPathSegment { id: self.parent_id, generation: self.generation }
    }

    /// A forwarder for the events of a child.
    pub fn new(parent_id: String, generation: u64) -> (r: Self)
        ensures
            r.segment() == (EventPathSegment { id: parent_id, generation }),
    {
        NestedEventForwarder { parent_id, generation }
    }

    /// Wraps an event of the child. Its path gets one segment longer, at the
    /// front, and its leaf stays the same.
    pub fn forward_nested_event(&self, event: SupervisorEvent) -> (r: SupervisorEvent)
        ensures
            r == (SupervisorEvent::Nested {
                id: self.segment().id,
                generation: self.segment().generation,
                event: Box::new(event),
            }),
            r.route() == seq![self.segment()] + event.route(),
            r.innermost() == event.innermost(),
    {
        SupervisorEvent::Nested {
            id: self.parent_id.clone(),
            generation: self.generation,
            event: Box::new(event),
        }
    }
}

/// The path of a forwarded event goes from the outside in: first the child whose
/// supervisor forwarded it last, then what the event came through before. The leaf is
/// that of the event inside.
pub proof fn paths_go_from_the_outside_in(
    id: String,
    generation: u64,
    inner: SupervisorEvent,
    at: int,
)
    requires
        0 <= at < inner.route().len(),
    ensures
        ({
            let outer = SupervisorEvent::Nested { id, generation, event: Box::new(inner) };
            &&& outer.route().len() == inner.route().len() + 1
            &&& outer.route()[0].id == id
            &&& outer.route()[0].generation == generation
            &&& outer.route()[at + 1] == inner.route()[at]
            &&& outer.innermost() == inner.innermost()
        }),
{
}

} // verus!
