//! Coordination layer for download jobs handed to an aria2 daemon: the
//! session state machine, the registry of tracked sessions, the job history,
//! the user settings and the inbox that external producers fill.
//!
//! Nothing here talks to the daemon. Each transition returns the request
//! it needs sent, and the daemon's answer comes back through a handler.

pub mod history;
pub mod intake;
pub mod registry;
pub mod session;
pub mod settings;
pub mod status;
pub mod text;
