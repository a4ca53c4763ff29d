//! The ordered events a supervised process produces.

use vstd::prelude::*;

verus! {

/// One event of a supervised process.
pub enum CommandEvent {
    /// A line read from the process's stderr.
    Stderr(String),
    /// A line read from the process's stdout.
    Stdout(String),
    /// A malformed byte sequence or read failure on one pipe, or a failed
    /// wait; the sibling stream keeps functioning.
    Error(String),
    /// The process exited. Published exactly once, after both line readers
    /// have drained their pipes.
    Exited { code: Option<i32>, signal: Option<i32> },
}

/// Whether an event is the exit notification.
pub open spec fn is_exit_event(event: CommandEvent) -> bool {
    event is Exited
}

/// Whether an event was produced by one of the line readers.
pub open spec fn is_reader_event(event: CommandEvent) -> bool {
    event is Stdout || event is Stderr || event is Error
}

/// How many exit notifications a history holds.
pub open spec fn count_exits(events: Seq<CommandEvent>) -> int
    decreases events.len(),
{
    if events.len() == 0 {
        0
    } else {
        count_exits(events.drop_last()) + if is_exit_event(events.last()) {
            1int
        } else {
            0int
        }
    }
}

} // verus!
