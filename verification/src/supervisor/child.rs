//! Specifications of supervised children.

use vstd::prelude::*;

use crate::supervisor::error::SupervisorError;
use crate::supervisor::restart::{Restart, RestartIntensity};
use crate::supervisor::shutdown::ShutdownPolicy;

verus! {

/// An error that a child returned.
///
/// Only the kind that a nested supervisor ends with is told apart; any other
/// error is kept as the text that it displays.
#[derive(Debug, Clone, PartialEq, Eq)]
pub enum BoxError {
    /// An error of the child's own, as it displays itself.
    Message(String),
    /// The child is a supervisor that ended with this.
    Supervisor(SupervisorError),
}

impl BoxError {
    /// What [`message`](Self::message) says.
    pub open spec fn text(self) -> Seq<char> {
        match self {
            BoxError::Message(message) => message@,
            BoxError::Supervisor(cause) => cause.text(),
        }
    }

    /// An error that displays itself as `message`.
    pub fn new(message: String) -> (r: Self)
        ensures
            r == BoxError::Message(message),
    {
        BoxError::Message(message)
    }

    /// The error in words.
    pub fn message(&self) -> (r: String)
        ensures
            r@ == self.text(),
    {
        match self {
            BoxError::Message(message) => message.clone(),
            BoxError::Supervisor(cause) => cause.message(),
        }
    }
}

/// The result returned by every supervised child.
///
/// `Ok(())` signals a clean exit. An error signals a failure, which may trigger
/// a restart depending on the child's [`Restart`] policy.
pub type ChildResult = Result<(), BoxError>;

/// The part of a child's specification that the supervisor decides by.
#[derive(Debug, PartialEq, Eq)]
pub struct ChildSpecInner {
    /// The child's unique identifier.
    pub id: String,
    /// When the child is restarted.
    pub restart: Restart,
    /// The child's own restart intensity, in place of the supervisor's.
    pub restart_intensity: Option<RestartIntensity>,
    /// How the child is stopped.
    pub shutdown_policy: ShutdownPolicy,
}

impl Clone for ChildSpecInner {
    fn clone(&self) -> (r: Self)
        ensures
            r == *self,
    {
        ChildSpecInner {
            id: self.id.clone(),
            restart: self.restart,
            restart_intensity: self.restart_intensity,
            shutdown_policy: self.shutdown_policy,
        }
    }
}

/// Specification for a supervised child task: policies, and the factory that
/// makes the child's future each time it is started.
///
/// The factory is only carried along, so `F` can be anything.
#[derive(Debug)]
pub struct ChildSpec<F> {
    pub(crate) inner: ChildSpecInner,
    pub(crate) factory: F,
}

impl<F> ChildSpec<F> {
    /// The child's policies.
    pub closed spec fn policies(&self) -> ChildSpecInner {
        self.inner
    }

    /// What makes the child's future.
    pub closed spec fn maker(&self) -> F {
        self.factory
    }

    /// Creates a new child specification with default policies.
    ///
    /// `id` must be unique among siblings within the same supervisor.
    pub fn new(id: String, factory: F) -> (r: Self)
        ensures
            r.maker() == factory,
            r.policies().id == id,
            r.policies().restart is Transient,
            r.policies().restart_intensity is None,
            r.policies().shutdown_policy.mode is CooperativeThenAbort,
            r.policies().shutdown_policy.grace@ == 5_000_000_000,
    {
        ChildSpec {
            inner: ChildSpecInner {
                id,
                restart: Restart::default(),
                restart_intensity: None,
                shutdown_policy: ShutdownPolicy::default(),
            },
            factory,
        }
    }

    /// Sets the restart policy for the child.
    #[must_use]
    pub fn restart(self, restart: Restart) -> (r: Self)
        ensures
            r.maker() == self.maker(),
            r.policies() == (ChildSpecInner { restart, ..self.policies() }),
    {
        ChildSpec { inner: ChildSpecInner { restart, ..self.inner }, factory: self.factory }
    }

    /// Sets the shutdown policy for the child.
    #[must_use]
    pub fn shutdown(self, policy: ShutdownPolicy) -> (r: Self)
        ensures
            r.maker() == self.maker(),
            r.policies() == (ChildSpecInner { shutdown_policy: policy, ..self.policies() }),
    {
        ChildSpec {
            inner: ChildSpecInner { shutdown_policy: policy, ..self.inner },
            factory: self.factory,
        }
    }

    /// Overrides the supervisor-level [`RestartIntensity`] for the child.
    #[must_use]
    pub fn restart_intensity(self, intensity: RestartIntensity) -> (r: Self)
        ensures
            r.maker() == self.maker(),
            r.policies() == (ChildSpecInner {
                restart_intensity: Some(intensity),
                ..self.policies()
            }),
    {
        ChildSpec {
            inner: ChildSpecInner { restart_intensity: Some(intensity), ..self.inner },
            factory: self.factory,
        }
    }

    /// Returns the child's unique identifier.
    pub fn id(&self) -> (r: &str)
        ensures
            r@ == self.policies().id@,
    {
        self.inner.id.as_str()
    }

    /// Returns the child's restart policy.
    pub fn restart_policy(&self) -> (r: Restart)
        ensures
            r == self.policies().restart,
    {
        self.inner.restart
    }

    /// Returns the child's own restart intensity, if it has one.
    pub fn restart_intensity_override(&self) -> (r: Option<RestartIntensity>)
        ensures
            r == self.policies().restart_intensity,
    {
        self.inner.restart_intensity
    }

    /// Returns the child's shutdown policy.
    pub fn shutdown_policy(&self) -> (r: ShutdownPolicy)
        ensures
            r == self.policies().shutdown_policy,
    {
        self.inner.shutdown_policy
    }

    /// Returns the child's policies.
    pub fn inner(&self) -> (r: &ChildSpecInner)
        ensures
            *r == self.policies(),
    {
        &self.inner
    }

    /// Returns what makes the child's future.
    pub fn factory(&self) -> (r: &F)
        ensures
            *r == self.maker(),
    {
        &self.factory
    }

    /// Takes the specification apart.
    pub fn into_parts(self) -> (r: (ChildSpecInner, F))
        ensures
            r == (self.policies(), self.maker()),
    {
        (self.inner, self.factory)
    }
}

} // verus!
