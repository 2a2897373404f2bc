//! Verified core of an OTP-style runtime: supervision trees, actor graphs and
//! the glue that hosts one inside the other.

pub mod actor;
pub mod directory;
pub mod otp;
pub mod queues;
pub mod supervisor;
pub mod text;
pub mod time;
pub mod token;
