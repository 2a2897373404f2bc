//! Errors of hosting actors inside a supervisor.

use vstd::prelude::*;

use crate::actor::error::GraphError;
use crate::actor::registry::RegistryError;
use crate::supervisor::error::ControlError;

verus! {

/// Errors returned while adapting actor graphs into supervisor children.
#[derive(Debug)]
pub enum BuildError {
    /// The graph could not be decomposed into an actor set.
    Graph(GraphError),
    /// Actor registry initialization failed.
    Registry(RegistryError),
    /// The supplied supervisor configuration was invalid.
    Supervisor(crate::supervisor::error::BuildError),
    /// An override referenced an actor id that does not exist in the graph.
    UnknownActor { actor_id: String },
}

impl BuildError {
    /// What [`message`](Self::message) says.
    pub open spec fn text(self) -> Seq<char> {
        match self {
            BuildError::Graph(error) => error.text(),
            BuildError::Registry(error) => error.text(),
            BuildError::Supervisor(error) => error.text(),
            BuildError::UnknownActor { actor_id } => "unknown actor `"@ + actor_id@ + "`"@,
        }
    }

    /// The error in words.
    pub fn message(&self) -> (r: String)
        ensures
            r@ == self.text(),
    {
        match self {
            BuildError::Graph(error) => error.message(),
            BuildError::Registry(error) => error.message(),
            BuildError::Supervisor(error) => error.message(),
            BuildError::UnknownActor { actor_id } => {
                let mut out = "unknown actor `".to_owned();
                out.append(actor_id.as_str());
                out.append("`");
                out
            },
        }
    }
}

impl From<GraphError> for BuildError {
    fn from(error: GraphError) -> (r: Self) {
        BuildError::Graph(error)
    }
}

impl vstd::std_specs::convert::FromSpecImpl<GraphError> for BuildError {
    open spec fn obeys_from_spec() -> bool {
        true
    }

    open spec fn from_spec(error: GraphError) -> Self {
        BuildError::Graph(error)
    }
}

impl From<RegistryError> for BuildError {
    fn from(error: RegistryError) -> (r: Self) {
        BuildError::Registry(error)
    }
}

impl vstd::std_specs::convert::FromSpecImpl<RegistryError> for BuildError {
    open spec fn obeys_from_spec() -> bool {
        true
    }

    open spec fn from_spec(error: RegistryError) -> Self {
        BuildError::Registry(error)
    }
}

impl From<crate::supervisor::error::BuildError> for BuildError {
    fn from(error: crate::supervisor::error::BuildError) -> (r: Self) {
        BuildError::Supervisor(error)
    }
}

impl vstd::std_specs::convert::FromSpecImpl<crate::supervisor::error::BuildError> for BuildError {
    open spec fn obeys_from_spec() -> bool {
        true
    }

    open spec fn from_spec(error: crate::supervisor::error::BuildError) -> Self {
        BuildError::Supervisor(error)
    }
}

/// Errors returned by runtime dynamic actor operations.
#[derive(Debug)]
pub enum DynamicActorError {
    /// Dynamic actor support is unavailable for this runtime.
    Unsupported,
    /// A runtime actor registry operation failed.
    Registry(RegistryError),
    /// The underlying supervisor rejected the control request.
    Control(ControlError),
}

impl DynamicActorError {
    /// What [`message`](Self::message) says.
    pub open spec fn text(self) -> Seq<char> {
        match self {
            DynamicActorError::Unsupported =>
                "dynamic actor support is unavailable for this runtime"@,
            DynamicActorError::Registry(error) => error.text(),
            DynamicActorError::Control(error) => error.text(),
        }
    }

    /// The error in words.
    pub fn message(&self) -> (r: String)
        ensures
            r@ == self.text(),
    {
        match self {
            DynamicActorError::Unsupported =>
                "dynamic actor support is unavailable for this runtime".to_owned(),
            DynamicActorError::Registry(error) => error.message(),
            DynamicActorError::Control(error) => error.message(),
        }
    }
}

impl From<RegistryError> for DynamicActorError {
    fn from(error: RegistryError) -> (r: Self) {
        DynamicActorError::Registry(error)
    }
}

impl vstd::std_specs::convert::FromSpecImpl<RegistryError> for DynamicActorError {
    open spec fn obeys_from_spec() -> bool {
        true
    }

    open spec fn from_spec(error: RegistryError) -> Self {
        DynamicActorError::Registry(error)
    }
}

impl From<ControlError> for DynamicActorError {
    fn from(error: ControlError) -> (r: Self) {
        DynamicActorError::Control(error)
    }
}

impl vstd::std_specs::convert::FromSpecImpl<ControlError> for DynamicActorError {
    open spec fn obeys_from_spec() -> bool {
        true
    }

    open spec fn from_spec(error: ControlError) -> Self {
        DynamicActorError::Control(error)
    }
}

} // verus!
