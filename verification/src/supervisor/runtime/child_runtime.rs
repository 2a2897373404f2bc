//! What a supervisor keeps of each child.

use vstd::prelude::*;

use crate::supervisor::child::ChildSpecInner;
use crate::supervisor::event::ExitStatusView;
use crate::supervisor::restart::RestartIntensity;
use crate::supervisor::runtime::intensity::RestartTracker;
use crate::supervisor::snapshot::SupervisorSnapshot;
use crate::time::Duration;

verus! {

/// Where a child is in its life.
#[derive(Clone, Copy, Debug, PartialEq, Eq, Structural)]
pub enum RuntimeChildState {
    /// Its task is being set up.
    Starting,
    /// Its task is running.
    Running,
    /// It was asked to stop.
    Stopping,
    /// It has no task.
    Stopped,
}

impl RuntimeChildState {
    /// A child is active until it has stopped.
    pub open spec fn active(self) -> bool {
        !(self is Stopped)
    }

    /// A child counts as running until it is asked to stop.
    pub open spec fn counted(self) -> bool {
        self is Starting || self is Running
    }

    /// Whether the child may have a task.
    pub fn is_active(self) -> (r: bool)
        ensures
            r == self.active(),
    {
        match self {
            RuntimeChildState::Stopped => false,
            _ => true,
        }
    }

    /// Whether the child counts as running.
    pub fn is_counted(self) -> (r: bool)
        ensures
            r == self.counted(),
    {
        match self {
            RuntimeChildState::Starting => true,
            RuntimeChildState::Running => true,
            _ => false,
        }
    }
}

/// Mutable per-child state managed by the supervisor runtime.
#[derive(Debug)]
pub struct ChildRuntime {
    /// The child's policies.
    pub spec: ChildSpecInner,
    /// The child's recent restarts.
    pub restart_tracker: RestartTracker,
    /// Which incarnation of the child it is.
    pub generation: u64,
    /// Where the child is in its life.
    pub state: RuntimeChildState,
    /// Whether the child has ever been started.
    pub has_started: bool,
    /// When a pending restart is due.
    pub next_restart_deadline: Option<Duration>,
}

impl ChildRuntime {
    /// A child that has not been started. It is restarted as often as its own
    /// intensity allows, or the supervisor's default if it has none.
    pub fn new(spec: ChildSpecInner, default_restart_intensity: RestartIntensity) -> (r: Self)
        ensures
            r.spec == spec,
            r.restart_tracker.limit() == match spec.restart_intensity {
                Some(intensity) => intensity,
                None => default_restart_intensity,
            },
            r.restart_tracker.restarts().len() == 0,
            r.generation == 0,
            r.state is Stopped,
            !r.has_started,
            r.next_restart_deadline is None,
    {
        let intensity = match spec.restart_intensity {
            Some(intensity) => intensity,
            None => default_restart_intensity,
        };
        ChildRuntime {
            spec,
            restart_tracker: RestartTracker::new(intensity),
            generation: 0,
            state: RuntimeChildState::Stopped,
            has_started: false,
            next_restart_deadline: None,
        }
    }
}

/// Whether a child belongs to its supervisor.
#[derive(Clone, Copy, Debug, PartialEq, Eq, Structural)]
pub enum MembershipState {
    /// It does.
    Active,
    /// It is on its way out.
    Removing,
    /// It did.
    Removed,
}

/// A child in its slot.
#[derive(Debug)]
pub struct ChildEntry {
    /// The child's id.
    pub id: String,
    /// Tells the children apart that have used the slot.
    pub instance: u64,
    /// Whether the child belongs to the supervisor.
    pub membership: MembershipState,
    /// The child's state.
    pub runtime: ChildRuntime,
    /// How the child last exited.
    pub last_exit: Option<ExitStatusView>,
    /// How the child ended for good, if it did.
    pub terminal_status: Option<ExitStatusView>,
    /// How often the child has been restarted.
    pub restart_count: u64,
    /// The latest snapshot of the child, if it is a supervisor itself.
    pub nested_snapshot: Option<SupervisorSnapshot>,
}

} // verus!
