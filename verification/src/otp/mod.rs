//! Hosting actors and graphs of actors inside a supervisor.

pub mod error;
pub mod runtime;
pub mod supervised_actors;
pub mod supervised_graph;

pub use error::{BuildError, DynamicActorError};
pub use runtime::{ChildWork, DynamicActorOptions, Runtime, RuntimeHandle};
pub use supervised_actors::SupervisedActors;
pub use supervised_graph::SupervisedGraph;
