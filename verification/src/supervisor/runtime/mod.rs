//! The supervisor's inner workings.

pub mod child_runtime;
pub mod exit;
pub mod intensity;
pub mod laws;
pub mod membership_laws;
pub mod model;
pub mod restart_laws;
pub mod shown_laws;
pub mod slots;
pub mod step_laws;
pub mod stop_laws;
pub mod supervision;
pub mod timing_laws;
