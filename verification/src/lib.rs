//! A remote command-execution agent: it runs one local process on behalf of a
//! remote controller, streams the process's output back over a persistent
//! connection, and accepts control instructions (authenticate, terminate)
//! from the remote side.
//!
//! The library holds the protocol and supervision logic: wire-packet framing,
//! the liveness heartbeat, the process event ordering barrier, and the
//! session state machine. The surrounding binary supplies the operating
//! system pieces: pipes, sockets, timers and signals.

pub mod cmd;
pub mod common;
pub mod config;
pub mod error;
pub mod http;
pub mod manager;
pub mod services;
pub mod ws;
