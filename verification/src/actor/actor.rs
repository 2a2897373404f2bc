//! What an actor is made of.

use vstd::prelude::*;

use crate::actor::blocking::BlockingTaskFailure;

verus! {

/// An error that an actor returned.
///
/// Only the kinds that the runtime itself produces are told apart; any other
/// error is kept as the text that it displays.
#[derive(Debug, Clone, PartialEq, Eq)]
pub enum BoxError {
    /// An error of the actor's own, as it displays itself.
    Message(String),
    /// A blocking task of the actor failed and nobody waited for it.
    BlockingTask(BlockingTaskFailure),
}

impl BoxError {
    /// What [`message`](Self::message) says.
    pub open spec fn text(self) -> Seq<char> {
        match self {
            BoxError::Message(message) => message@,
            BoxError::BlockingTask(failure) => failure.text(),
        }
    }

    /// The error in words.
    pub fn message(&self) -> (r: String)
        ensures
            r@ == self.text(),
    {
        match self {
            BoxError::Message(message) => message.clone(),
            BoxError::BlockingTask(failure) => failure.message(),
        }
    }
}

/// The result returned by every actor function.
pub type ActorResult = Result<(), BoxError>;

/// Specification of an actor within a graph: an id, and the factory that makes
/// the actor's future each time it is run.
///
/// The factory is only carried along, so `F` can be anything.
#[derive(Debug)]
pub struct ActorSpec<F> {
    pub(crate) id: String,
    pub(crate) factory: F,
}

impl<F> ActorSpec<F> {
    /// The actor's id.
    pub closed spec fn name(&self) -> Seq<char> {
        self.id@
    }

    /// What makes the actor's future.
    pub closed spec fn maker(&self) -> F {
        self.factory
    }

    /// Creates an actor specification from a factory for its future.
    pub fn native(id: String, factory: F) -> (r: Self)
        ensures
            r.name() == id@,
            r.maker() == factory,
    {
        ActorSpec { id, factory }
    }

    /// Creates an actor specification from an actor value, which is to be
    /// cloned for each run.
    pub fn from_actor(id: String, actor: F) -> (r: Self)
        ensures
            r.name() == id@,
            r.maker() == actor,
    {
        ActorSpec { id, factory: actor }
    }

    /// Returns the actor's unique identifier.
    pub fn id(&self) -> (r: &str)
        ensures
            r@ == self.name(),
    {
        self.id.as_str()
    }

    /// Returns what makes the actor's future.
    pub fn factory(&self) -> (r: &F)
        ensures
            *r == self.maker(),
    {
        &self.factory
    }
}

} // verus!
