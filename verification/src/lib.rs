//! Decision core of Aequimuta, a command line tool that publishes local TCP
//! services through Tailscale Serve or an OpenSSH reverse forward.
//!
//! Nothing here touches the outside world. Each operation is a function from what is
//! known so far to the next thing to do: the caller does it, adds what came of it to
//! what is known, and asks again until the operation is finished.

pub mod apply;
pub mod cli;
pub mod declaration;
pub mod doctor;
pub mod document;
pub mod failure;
pub mod init;
pub mod names;
pub mod openssh_reverse_tcp;
pub mod outcome;
pub mod paths;
pub mod project;
pub mod publish;
pub mod publishing;
pub mod status;
pub mod step;
pub mod tailscale_serve_tcp;
pub mod text;
