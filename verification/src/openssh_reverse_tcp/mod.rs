//! Publishing through an OpenSSH reverse forward.

pub mod commands;
pub mod configuration;
pub mod control_path;
pub mod processes;
pub mod runtime;
pub mod session;
