//! Errors of building, running and controlling a supervisor.

use vstd::prelude::*;

verus! {

fn prefixed(prefix: &str, detail: &str) -> (r: String)
    ensures
        r@ == prefix@ + detail@,
{
    let mut out = prefix.to_owned();
    out.append(detail);
    out
}

/// Errors returned when building a supervisor.
#[derive(Debug, PartialEq, Eq)]
pub enum BuildError {
    /// Two or more children share the same id string.
    DuplicateChildId(String),
    /// The builder has no children. A supervisor must have at least one child.
    EmptyChildren,
    /// A configuration value is invalid.
    InvalidConfig(&'static str),
}

impl BuildError {
    /// What [`message`](Self::message) says.
    pub open spec fn text(self) -> Seq<char> {
        match self {
            BuildError::DuplicateChildId(detail) => "duplicate child id: "@ + detail@,
            BuildError::EmptyChildren => "supervisor requires at least one child"@,
            BuildError::InvalidConfig(detail) => "invalid supervisor configuration: "@ + detail@,
        }
    }

    /// The error in words.
    pub fn message(&self) -> (r: String)
        ensures
            r@ == self.text(),
    {
        match self {
            BuildError::DuplicateChildId(detail) => prefixed("duplicate child id: ", detail.as_str()),
            BuildError::EmptyChildren => "supervisor requires at least one child".to_owned(),
            BuildError::InvalidConfig(detail) => prefixed("invalid supervisor configuration: ", *detail),
        }
    }
}

/// Fatal errors that cause a running supervisor to exit.
#[derive(Clone, Debug, PartialEq, Eq)]
pub enum SupervisorError {
    /// A child exceeded its restart intensity limit, so the supervisor cannot
    /// continue.
    RestartIntensityExceeded,
    /// One or more children did not exit within their configured grace period
    /// during shutdown. The contained string lists the timed-out child ids.
    ShutdownTimedOut(String),
    /// An unexpected internal condition.
    Internal(String),
}

impl SupervisorError {
    /// What [`message`](Self::message) says.
    pub open spec fn text(self) -> Seq<char> {
        match self {
            SupervisorError::RestartIntensityExceeded => "restart intensity exceeded"@,
            SupervisorError::ShutdownTimedOut(detail) => "shutdown timed out: "@ + detail@,
            SupervisorError::Internal(detail) => "internal supervisor error: "@ + detail@,
        }
    }

    /// The error in words.
    pub fn message(&self) -> (r: String)
        ensures
            r@ == self.text(),
    {
        match self {
            SupervisorError::RestartIntensityExceeded => "restart intensity exceeded".to_owned(),
            SupervisorError::ShutdownTimedOut(detail) => prefixed("shutdown timed out: ", detail.as_str()),
            SupervisorError::Internal(detail) => prefixed("internal supervisor error: ", detail.as_str()),
        }
    }
}

/// Errors returned by control-plane operations, such as adding or removing
/// children at runtime.
#[derive(Debug, PartialEq, Eq)]
pub enum ControlError {
    /// The control channel is full.
    Busy,
    /// A child with the id already exists in the supervisor.
    DuplicateChildId(String),
    /// No child with the id is known to the supervisor.
    UnknownChildId(String),
    /// A removal request for the child is already in progress.
    ChildRemovalInProgress(String),
    /// The child spec contains invalid configuration.
    InvalidConfig(&'static str),
    /// Cannot remove the last active child. A supervisor must always have at
    /// least one child.
    LastChildRemovalUnsupported,
    /// The supervisor is in the process of shutting down and is no longer
    /// accepting commands.
    SupervisorStopping,
    /// A child did not exit within its grace period during removal.
    ShutdownTimedOut(String),
    /// The supervisor task has already exited and the control channel is closed.
    Unavailable,
    /// An unexpected internal condition.
    Internal(String),
}

impl ControlError {
    /// What [`message`](Self::message) says.
    pub open spec fn text(self) -> Seq<char> {
        match self {
            ControlError::Busy => "supervisor control plane is busy"@,
            ControlError::DuplicateChildId(detail) => "duplicate child id: "@ + detail@,
            ControlError::UnknownChildId(detail) => "unknown child id: "@ + detail@,
            ControlError::ChildRemovalInProgress(detail) => "child removal already in progress: "@ + detail@,
            ControlError::InvalidConfig(detail) => "invalid child configuration: "@ + detail@,
            ControlError::LastChildRemovalUnsupported => "cannot remove the last active child"@,
            ControlError::SupervisorStopping => "supervisor is stopping"@,
            ControlError::ShutdownTimedOut(detail) => "child removal timed out: "@ + detail@,
            ControlError::Unavailable => "supervisor control plane is unavailable"@,
            ControlError::Internal(detail) => "internal supervisor control error: "@ + detail@,
        }
    }

    /// The error in words.
    pub fn message(&self) -> (r: String)
        ensures
            r@ == self.text(),
    {
        match self {
            ControlError::Busy => "supervisor control plane is busy".to_owned(),
            ControlError::DuplicateChildId(detail) => prefixed("duplicate child id: ", detail.as_str()),
            ControlError::UnknownChildId(detail) => prefixed("unknown child id: ", detail.as_str()),
            ControlError::ChildRemovalInProgress(detail) => prefixed("child removal already in progress: ", detail.as_str()),
            ControlError::InvalidConfig(detail) => prefixed("invalid child configuration: ", *detail),
            ControlError::LastChildRemovalUnsupported => "cannot remove the last active child".to_owned(),
            ControlError::SupervisorStopping => "supervisor is stopping".to_owned(),
            ControlError::ShutdownTimedOut(detail) => prefixed("child removal timed out: ", detail.as_str()),
            ControlError::Unavailable => "supervisor control plane is unavailable".to_owned(),
            ControlError::Internal(detail) => prefixed("internal supervisor control error: ", detail.as_str()),
        }
    }
}

/// The final exit reason of a supervisor.
#[derive(Clone, Copy, Debug, PartialEq, Eq, Structural)]
pub enum SupervisorExit {
    /// The supervisor was explicitly shut down.
    Shutdown,
    /// All children exited cleanly with no failures.
    Completed,
    /// At least one child exited with a failure and was not restarted. Natural
    /// completion is based on each child's latest terminal status, so failures
    /// of superseded generations do not poison a later clean exit.
    Failed,
}

impl SupervisorExit {
    /// What [`message`](Self::message) says.
    pub open spec fn text(self) -> Seq<char> {
        match self {
            SupervisorExit::Shutdown => "shutdown"@,
            SupervisorExit::Completed => "completed"@,
            SupervisorExit::Failed => "failed"@,
        }
    }

    /// The reason in words.
    pub fn message(&self) -> (r: String)
        ensures
            r@ == self.text(),
    {
        match self {
            SupervisorExit::Shutdown => "shutdown".to_owned(),
            SupervisorExit::Completed => "completed".to_owned(),
            SupervisorExit::Failed => "failed".to_owned(),
        }
    }
}

} // verus!
