//! The process side of the agent: the command to launch, the events a
//! running process produces, and the supervisor that orders them.

pub mod command;
pub mod event;
pub mod supervisor;

pub use command::Command;
pub use event::CommandEvent;
pub use supervisor::Supervisor;
