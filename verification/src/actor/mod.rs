//! Static graphs of actors that pass byte envelopes to each other.

pub mod actor;
pub mod actor_set;
pub mod binding;
pub mod blocking;
pub mod blocking_finish;
pub mod blocking_laws;
pub mod builder;
pub mod builder_laws;
pub mod context;
pub mod delivery;
pub mod envelope;
pub mod error;
pub mod graph;
pub mod ingress;
pub mod observability;
pub mod registry;
pub mod report_laws;
pub mod runtime;

pub use actor::{ActorResult, ActorSpec, BoxError};
pub use actor_set::{ActorRunError, ActorSet, RunnableActor, RunnableActorFactory};
pub use blocking::{
    BlockingContext, BlockingHandle, BlockingOperationError, BlockingOptions, BlockingTaskError,
    BlockingTaskFailure, BlockingTaskId, SharedError, SpawnBlockingError,
};
pub use builder::GraphBuilder;
pub use context::{ActorContext, ActorRef};
pub use envelope::Envelope;
pub use error::{BuildError, GraphError, IngressError, SendError};
pub use graph::Graph;
pub use ingress::IngressHandle;
pub use registry::{ActorRegistry, RegistryError};
