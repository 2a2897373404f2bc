//! What a child sees of its supervisor.

use tokio_util::sync::CancellationToken;
use vstd::prelude::*;

use crate::token::{answers, parent_of};

verus! {

/// Runtime context passed to a child on each (re)start.
#[derive(Debug)]
pub struct ChildContext {
    /// The child's unique identifier within its supervisor.
    pub id: String,
    /// Counter that distinguishes successive incarnations of the same child.
    /// Starts at 0 for the first spawn.
    pub generation: u64,
    /// Cancellation token for the specific child instance. The supervisor
    /// cancels the token when the child should stop.
    pub token: CancellationToken,
    /// Read-only view of the supervisor's own cancellation state.
    pub supervisor_token: SupervisorToken,
}

impl Clone for ChildContext {
    fn clone(&self) -> (r: Self)
        ensures
            r == *self,
    {
        ChildContext {
            id: self.id.clone(),
            generation: self.generation,
            token: self.token.clone(),
            supervisor_token: self.supervisor_token.clone(),
        }
    }
}

/// Read-only view of the supervisor's cancellation token.
///
/// Children can observe supervisor-level cancellation but cannot trigger it.
#[derive(Debug)]
pub struct SupervisorToken(CancellationToken);

impl Clone for SupervisorToken {
    fn clone(&self) -> (r: Self)
        ensures
            r == *self,
    {
        SupervisorToken(self.0.clone())
    }
}

impl SupervisorToken {
    /// The token that it shows.
    pub closed spec fn shown(&self) -> CancellationToken {
        self.0
    }

    /// A view of `token`.
    pub fn new(token: CancellationToken) -> (r: Self)
        ensures
            r.shown() == token,
    {
        SupervisorToken(token)
    }

    /// A child of the token that it shows, on which a task can wait for the
    /// supervisor's cancellation without being able to trigger it.
    pub fn observer(&self) -> (r: CancellationToken)
        ensures
            parent_of(r) == self.shown(),
    {
        self.0.child_token()
    }

    /// Returns `true` if the supervisor has been cancelled.
    pub fn is_cancelled(&self) -> (r: bool)
        ensures
            answers(self.shown(), r),
    {
        self.0.is_cancelled()
    }
}

} // verus!
