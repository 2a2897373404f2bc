//! Structured supervision of tasks.

pub mod builder;
pub mod child;
pub mod context;
pub mod error;
pub mod event;
pub mod handle;
pub mod restart;
pub mod runtime;
pub mod shutdown;
pub mod snapshot;
pub mod strategy;
pub mod supervisor;

pub use builder::SupervisorBuilder;
pub use child::{BoxError, ChildResult, ChildSpec};
pub use context::{ChildContext, SupervisorToken};
pub use error::{BuildError, ControlError, SupervisorError, SupervisorExit};
pub use event::{EventPathSegment, ExitStatusView, SupervisorEvent};
pub use restart::{BackoffPolicy, Restart, RestartIntensity};
pub use shutdown::{ShutdownMode, ShutdownPolicy};
pub use snapshot::{
    ChildMembershipView, ChildSnapshot, ChildStateView, SupervisorSnapshot, SupervisorStateView,
};
pub use strategy::Strategy;
pub use supervisor::Supervisor;
