//! Bringing a supervisor to its end.

use vstd::prelude::*;

use crate::supervisor::error::{SupervisorError, SupervisorExit};
use crate::supervisor::event::SupervisorEvent;
use crate::supervisor::runtime::model::{Core, SupervisorState};
use crate::supervisor::runtime::supervision::shutdown::{
    drain_advances, Drain, DrainReason, DrainStage, DrainStep, Modes,
};
use crate::supervisor::runtime::supervision::{announced, Publication, SupervisorRuntime};
use crate::supervisor::shutdown::ShutdownMode;
use crate::time::Duration;
use crate::token::is_told;

verus! {

/// Why a supervisor stops while it has children to look after.
#[derive(Clone, Copy, Debug, PartialEq, Eq, Structural)]
pub enum StopCause {
    /// It was asked to.
    Requested,
    /// A child had to be restarted too often.
    IntensityExceeded,
}

impl StopCause {
    /// What the supervisor is said to have ended with.
    pub open spec fn last_exit(self) -> SupervisorExit {
        match self {
            StopCause::Requested => SupervisorExit::Shutdown,
            StopCause::IntensityExceeded => SupervisorExit::Failed,
        }
    }

    /// What a run that is stopped in an orderly way results in.
    pub open spec fn outcome(self) -> Result<SupervisorExit, SupervisorError> {
        match self {
            StopCause::Requested => Ok(SupervisorExit::Shutdown),
            StopCause::IntensityExceeded => Err(SupervisorError::RestartIntensityExceeded),
        }
    }
}

/// The end of a supervisor, in progress.
#[derive(Debug)]
pub struct Stop {
    /// What led to it.
    pub cause: StopCause,
    /// How far the children have been stopped.
    pub drain: Drain,
}

/// What it takes next to stop a supervisor.
#[derive(Debug)]
pub enum StopStep {
    /// Abort the tasks in these slots, report the tasks that have ended, then
    /// go on.
    Abort(Vec<usize>),
    /// Wait for a task to end, but not past the deadline, then go on.
    AwaitExit(Duration),
    /// The supervisor has stopped.
    Done(Result<SupervisorExit, SupervisorError>),
}

/// Whether this is how a stop begins, once every child was asked to: those that
/// are to be aborted at once come first, the others have as long as the longest
/// grace period among them.
pub open spec fn stop_begins(state: Core, cause: StopCause, stop: Stop, step: StopStep) -> bool {
    &&& stop.cause == cause
    &&& stop.drain.reason is Shutdown
    &&& stop.drain.stage matches DrainStage::Aborting { grace } && state.longest_grace(grace)
    &&& step matches StopStep::Abort(keys) && keys@ == state.engaged(
        Modes::Only(ShutdownMode::Abort),
    )
}

/// Whether stopping a supervisor goes on like this: it follows the drain of the
/// children, and once that is over the supervisor has ended for its cause, or
/// has failed to stop the children.
pub open spec fn stop_advances(
    before: Core,
    unsent_before: Seq<Publication>,
    stop: Stop,
    now: Duration,
    next: Stop,
    step: StopStep,
    after: Core,
    unsent_after: Seq<Publication>,
) -> bool {
    exists|drain: Drain, drained: DrainStep| #[trigger]
        drain_advances(before, stop.drain, now, drain, drained) && match drained {
            DrainStep::Abort(keys) => {
                &&& step == StopStep::Abort(keys)
                &&& next == (Stop { cause: stop.cause, drain })
                &&& after == before
                &&& unsent_after == unsent_before
            },
            DrainStep::AwaitExit(deadline) => {
                &&& step == StopStep::AwaitExit(deadline)
                &&& next == (Stop { cause: stop.cause, drain })
                &&& after == before
                &&& unsent_after == unsent_before
            },
            DrainStep::Done(Err(error)) => {
                &&& step == StopStep::Done(Err(error))
                &&& after == before
                &&& unsent_after == unsent_before
            },
            DrainStep::Done(Ok(())) => {
                &&& step == StopStep::Done(stop.cause.outcome())
                &&& after == before.ended(stop.cause.last_exit())
                &&& announced(
                    unsent_before,
                    unsent_after,
                    after,
                    now,
                    SupervisorEvent::SupervisorStopped,
                )
            },
        }
}

impl SupervisorRuntime {
    /// Begins to stop: every child is asked to, and those that are to be aborted
    /// at once come first.
    pub fn begin_stop(&mut self, cause: StopCause, now: Duration) -> (r: (Stop, StopStep))
        requires
            old(self).state().wf(),
        ensures
            final(self).state() == (Core {
                state: SupervisorState::Stopping,
                ..old(self).state().cancelled()
            }),
            final(self).state().wf(),
            final(self).group() == old(self).group(),
            is_told(old(self).group()),
            final(self).path() == old(self).path(),
            announced(
                old(self).unsent(),
                final(self).unsent(),
                final(self).state(),
                now,
                SupervisorEvent::SupervisorStopping,
            ),
            stop_begins(final(self).state(), cause, r.0, r.1),
    {
        self.begin_shutdown(now);
        let (drain, keys) = self.first_aborts(DrainReason::Shutdown);
        (Stop { cause, drain }, StopStep::Abort(keys))
    }

    /// Goes on stopping, after what the last step asked for has been done and
    /// the tasks that have ended have been reported.
    pub fn advance_stop(&mut self, stop: Stop, now: Duration) -> (r: (Stop, StopStep))
        requires
            old(self).state().wf(),
        ensures
            final(self).state().wf(),
            final(self).group() == old(self).group(),
            final(self).path() == old(self).path(),
            stop_advances(
                old(self).state(),
                old(self).unsent(),
                stop,
                now,
                r.0,
                r.1,
                final(self).state(),
                final(self).unsent(),
            ),
    {
        let cause = stop.cause;
        let (drain, drained) = self.advance_drain(stop.drain, now);
        match drained {
            DrainStep::Abort(keys) => (Stop { cause, drain }, StopStep::Abort(keys)),
            DrainStep::AwaitExit(deadline) => (Stop { cause, drain }, StopStep::AwaitExit(deadline)),
            DrainStep::Done(Err(error)) => (Stop { cause, drain }, StopStep::Done(Err(error))),
            DrainStep::Done(Ok(())) => {
                let (exit, outcome) = match cause {
                    StopCause::Requested => (SupervisorExit::Shutdown, Ok(SupervisorExit::Shutdown)),
                    StopCause::IntensityExceeded => (
                        SupervisorExit::Failed,
                        Err(SupervisorError::RestartIntensityExceeded),
                    ),
                };
                self.finish_with_exit(exit, now);
                (Stop { cause, drain }, StopStep::Done(outcome))
            },
        }
    }
}

} // verus!
