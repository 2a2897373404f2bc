//! How a child is stopped.

use vstd::prelude::*;

use crate::time::Duration;

verus! {

/// How the supervisor stops a child task during shutdown or removal.
#[derive(Clone, Copy, Debug, PartialEq, Eq, Structural)]
pub enum ShutdownMode {
    /// Wait for the grace period, then report a timeout if the task has not
    /// exited.
    Cooperative,
    /// Wait for the grace period, then abort the task.
    CooperativeThenAbort,
    /// Abort the task at once.
    Abort,
}

/// Shutdown behaviour for a single child, combining a [`ShutdownMode`] with a
/// grace period.
#[derive(Clone, Copy, Debug, PartialEq, Eq, Structural)]
pub struct ShutdownPolicy {
    /// How long to wait for the child to exit after its cancellation token is
    /// triggered.
    pub grace: Duration,
    /// What to do when the grace period expires, or at once for
    /// [`Abort`](ShutdownMode::Abort).
    pub mode: ShutdownMode,
}

impl ShutdownPolicy {
    /// Creates a policy with an explicit mode and grace period.
    pub fn new(grace: Duration, mode: ShutdownMode) -> (r: Self)
        ensures
            r == (ShutdownPolicy { grace, mode }),
    {
        ShutdownPolicy { grace, mode }
    }

    /// Cancel the child and wait up to `grace` for it to exit.
    pub fn cooperative(grace: Duration) -> (r: Self)
        ensures
            r == (ShutdownPolicy { grace, mode: ShutdownMode::Cooperative }),
    {
        ShutdownPolicy::new(grace, ShutdownMode::Cooperative)
    }

    /// Cancel the child and wait up to `grace`; if it has not exited by then,
    /// abort it.
    pub fn cooperative_then_abort(grace: Duration) -> (r: Self)
        ensures
            r == (ShutdownPolicy { grace, mode: ShutdownMode::CooperativeThenAbort }),
    {
        ShutdownPolicy::new(grace, ShutdownMode::CooperativeThenAbort)
    }

    /// Abort the child at once with no grace period.
    pub fn abort() -> (r: Self)
        ensures
            r.mode is Abort,
            r.grace@ == 0,
    {
        ShutdownPolicy::new(Duration::zero(), ShutdownMode::Abort)
    }
}

impl Default for ShutdownPolicy {
    /// Cooperative, then abort, with five seconds of grace.
    fn default() -> (r: Self)
        ensures
            r.mode is CooperativeThenAbort,
            r.grace@ == 5_000_000_000,
    {
        ShutdownPolicy::cooperative_then_abort(Duration::from_secs(5))
    }
}

} // verus!
