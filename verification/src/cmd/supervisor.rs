//! The supervisor of one spawned process: it owns the process's event
//! ordering. Three producers feed it — the stdout reader, the stderr reader
//! and the exit waiter — and it enforces the happens-before guarantee: the
//! exit notification is published only after both line readers have
//! released their permits, so no output is ever observed after `Exited`.
//!
//! The barrier is a countdown of readers remaining, decremented by each
//! line reader on pipe closure and checked by the exit waiter before it
//! publishes. The surrounding binary runs the producers and performs the
//! reads, waits and signals; every publishing decision goes through this
//! type, and the ghost history records what was published, in order.

use vstd::prelude::*;

use crate::cmd::event::{count_exits, is_exit_event, is_reader_event, CommandEvent};
use crate::error::ApplicationError;

verus! {

/// The shared state of one supervised process.
pub struct Supervisor {
    pid: u32,
    readers_remaining: u32,
    exit_published: bool,
    killed: bool,
    history: Ghost<Seq<CommandEvent>>,
}

impl Supervisor {
    /// The process id. Stable for the supervisor's whole lifetime.
    pub closed spec fn spec_pid(&self) -> u32 {
        self.pid
    }

    /// How many line readers still hold their permit.
    pub closed spec fn spec_readers_remaining(&self) -> u32 {
        self.readers_remaining
    }

    /// Whether the exit waiter has published its final event.
    pub closed spec fn spec_exit_published(&self) -> bool {
        self.exit_published
    }

    /// Whether a kill signal was requested.
    pub closed spec fn spec_killed(&self) -> bool {
        self.killed
    }

    /// Everything published so far, in publication order.
    pub closed spec fn spec_history(&self) -> Seq<CommandEvent> {
        self.history@
    }

    /// The ordering invariant: the exit waiter publishes only once both
    /// permits are back, and an exit notification can only stand last.
    pub open spec fn wf(&self) -> bool {
        &&& (self.spec_exit_published() ==> self.spec_readers_remaining() == 0)
        &&& (forall|k: int|
            0 <= k < self.spec_history().len() && is_exit_event(#[trigger] self.spec_history()[k])
                ==> k == self.spec_history().len() - 1 && self.spec_exit_published())
    }

    /// A new supervisor for the process with the given id, with the given
    /// number of line readers holding permits.
    pub fn new(pid: u32, readers: u32) -> (supervisor: Supervisor)
        ensures
            supervisor.wf(),
            supervisor.spec_pid() == pid,
            supervisor.spec_readers_remaining() == readers,
            !supervisor.spec_exit_published(),
            !supervisor.spec_killed(),
            supervisor.spec_history() == Seq::<CommandEvent>::empty(),
    {
        Supervisor {
            pid,
            readers_remaining: readers,
            exit_published: false,
            killed: false,
            history: Ghost(Seq::empty()),
        }
    }

    /// The process id.
    pub fn pid(&self) -> (pid: u32)
        ensures
            pid == self.spec_pid(),
    {
        self.pid
    }

    /// How many line readers still hold their permit.
    pub fn readers_remaining(&self) -> (readers: u32)
        ensures
            readers == self.spec_readers_remaining(),
    {
        self.readers_remaining
    }

    /// Whether the exit waiter has published its final event.
    pub fn exit_published(&self) -> (published: bool)
        ensures
            published == self.spec_exit_published(),
    {
        self.exit_published
    }

    /// Publishes one line read from stdout. Only a reader still holding its
    /// permit publishes, so this can never follow the exit notification.
    pub fn stdout_line(&mut self, line: String) -> (event: CommandEvent)
        requires
            old(self).wf(),
            old(self).spec_readers_remaining() > 0,
        ensures
            final(self).wf(),
            event == CommandEvent::Stdout(line),
            final(self).spec_history() == old(self).spec_history().push(event),
            final(self).spec_pid() == old(self).spec_pid(),
            final(self).spec_readers_remaining() == old(self).spec_readers_remaining(),
            final(self).spec_exit_published() == old(self).spec_exit_published(),
            final(self).spec_killed() == old(self).spec_killed(),
    {
        let event = CommandEvent::Stdout(line);
        self.push_reader_event(event)
    }

    /// Publishes one line read from stderr.
    pub fn stderr_line(&mut self, line: String) -> (event: CommandEvent)
        requires
            old(self).wf(),
            old(self).spec_readers_remaining() > 0,
        ensures
            final(self).wf(),
            event == CommandEvent::Stderr(line),
            final(self).spec_history() == old(self).spec_history().push(event),
            final(self).spec_pid() == old(self).spec_pid(),
            final(self).spec_readers_remaining() == old(self).spec_readers_remaining(),
            final(self).spec_exit_published() == old(self).spec_exit_published(),
            final(self).spec_killed() == old(self).spec_killed(),
    {
        let event = CommandEvent::Stderr(line);
        self.push_reader_event(event)
    }

    /// Publishes a read failure of one pipe as an error event on that
    /// stream only; the sibling stream keeps functioning.
    pub fn read_error(&mut self, message: String) -> (event: CommandEvent)
        requires
            old(self).wf(),
            old(self).spec_readers_remaining() > 0,
        ensures
            final(self).wf(),
            event == CommandEvent::Error(message),
            final(self).spec_history() == old(self).spec_history().push(event),
            final(self).spec_pid() == old(self).spec_pid(),
            final(self).spec_readers_remaining() == old(self).spec_readers_remaining(),
            final(self).spec_exit_published() == old(self).spec_exit_published(),
            final(self).spec_killed() == old(self).spec_killed(),
    {
        let event = CommandEvent::Error(message);
        self.push_reader_event(event)
    }

    /// The shared publication path of the line readers.
    fn push_reader_event(&mut self, event: CommandEvent) -> (published: CommandEvent)
        requires
            old(self).wf(),
            old(self).spec_readers_remaining() > 0,
            is_reader_event(event),
        ensures
            final(self).wf(),
            published == event,
            final(self).spec_history() == old(self).spec_history().push(event),
            final(self).spec_pid() == old(self).spec_pid(),
            final(self).spec_readers_remaining() == old(self).spec_readers_remaining(),
            final(self).spec_exit_published() == old(self).spec_exit_published(),
            final(self).spec_killed() == old(self).spec_killed(),
    {
        proof {
            assert(!self.spec_exit_published());
            assert(forall|k: int|
                0 <= k < self.spec_history().len() ==> !is_exit_event(
                    #[trigger] self.spec_history()[k],
                ));
        }
        self.history = Ghost(self.history@.push(event));
        proof {
            assert(forall|k: int|
                0 <= k < self.spec_history().len() - 1 ==> self.spec_history()[k] == old(
                    self,
                ).spec_history()[k]);
            assert(!is_exit_event(self.spec_history()[self.spec_history().len() - 1]));
        }
        event
    }

    /// A line reader releases its permit on pipe closure.
    pub fn reader_done(&mut self)
        requires
            old(self).wf(),
            old(self).spec_readers_remaining() > 0,
        ensures
            final(self).wf(),
            final(self).spec_readers_remaining() == old(self).spec_readers_remaining() - 1,
            final(self).spec_history() == old(self).spec_history(),
            final(self).spec_pid() == old(self).spec_pid(),
            final(self).spec_exit_published() == old(self).spec_exit_published(),
            final(self).spec_killed() == old(self).spec_killed(),
    {
        self.readers_remaining = self.readers_remaining - 1;
        proof {
            assert(self.spec_history() == old(self).spec_history());
            assert forall|k: int|
                0 <= k < self.spec_history().len() && is_exit_event(
                    #[trigger] self.spec_history()[k],
                ) implies k == self.spec_history().len() - 1 && self.spec_exit_published() by {
                assert(is_exit_event(old(self).spec_history()[k]));
            };
        }
    }

    /// The exit waiter offers the exit status. The notification is
    /// published exactly when every permit is back and nothing final was
    /// published yet; otherwise nothing happens and the waiter tries again.
    pub fn try_finish(&mut self, code: Option<i32>, signal: Option<i32>) -> (event: Option<
        CommandEvent,
    >)
        requires
            old(self).wf(),
        ensures
            final(self).wf(),
            old(self).spec_readers_remaining() == 0 && !old(self).spec_exit_published() ==> {
                &&& event == Some(CommandEvent::Exited { code, signal })
                &&& final(self).spec_history() == old(self).spec_history().push(
                    CommandEvent::Exited { code, signal },
                )
                &&& final(self).spec_exit_published()
            },
            !(old(self).spec_readers_remaining() == 0 && !old(self).spec_exit_published()) ==> {
                &&& event is None
                &&& *final(self) == *old(self)
            },
            final(self).spec_pid() == old(self).spec_pid(),
            final(self).spec_readers_remaining() == old(self).spec_readers_remaining(),
            final(self).spec_killed() == old(self).spec_killed(),
    {
        if self.readers_remaining == 0 && !self.exit_published {
            let event = CommandEvent::Exited { code, signal };
            proof {
                assert(forall|k: int|
                    0 <= k < self.spec_history().len() ==> !is_exit_event(
                        #[trigger] self.spec_history()[k],
                    ));
            }
            self.history = Ghost(self.history@.push(event));
            self.exit_published = true;
            proof {
                assert(forall|k: int|
                    0 <= k < self.spec_history().len() - 1 ==> self.spec_history()[k] == old(
                        self,
                    ).spec_history()[k]);
            }
            Some(event)
        } else {
            None
        }
    }

    /// The exit waiter failed to wait on the process: its final event is an
    /// error, published under the same barrier, and no exit notification
    /// ever follows.
    pub fn try_finish_error(&mut self, message: String) -> (event: Option<CommandEvent>)
        requires
            old(self).wf(),
        ensures
            final(self).wf(),
            old(self).spec_readers_remaining() == 0 && !old(self).spec_exit_published() ==> {
                &&& event == Some(CommandEvent::Error(message))
                &&& final(self).spec_history() == old(self).spec_history().push(
                    CommandEvent::Error(message),
                )
                &&& final(self).spec_exit_published()
            },
            !(old(self).spec_readers_remaining() == 0 && !old(self).spec_exit_published()) ==> {
                &&& event is None
                &&& *final(self) == *old(self)
            },
            final(self).spec_pid() == old(self).spec_pid(),
            final(self).spec_readers_remaining() == old(self).spec_readers_remaining(),
            final(self).spec_killed() == old(self).spec_killed(),
    {
        if self.readers_remaining == 0 && !self.exit_published {
            let event = CommandEvent::Error(message);
            proof {
                assert(forall|k: int|
                    0 <= k < self.spec_history().len() ==> !is_exit_event(
                        #[trigger] self.spec_history()[k],
                    ));
            }
            self.history = Ghost(self.history@.push(event));
            self.exit_published = true;
            proof {
                assert(forall|k: int|
                    0 <= k < self.spec_history().len() - 1 ==> self.spec_history()[k] == old(
                        self,
                    ).spec_history()[k]);
                assert(!is_exit_event(self.spec_history()[self.spec_history().len() - 1]));
            }
            Some(event)
        } else {
            None
        }
    }

    /// Requests termination of the process. Killing never fails and never
    /// publishes: a child that has already reported its exit produces no
    /// second `Exited` event and no error.
    pub fn kill(&mut self) -> (result: Result<(), ApplicationError>)
        requires
            old(self).wf(),
        ensures
            final(self).wf(),
            result is Ok,
            final(self).spec_killed(),
            final(self).spec_history() == old(self).spec_history(),
            final(self).spec_pid() == old(self).spec_pid(),
            final(self).spec_readers_remaining() == old(self).spec_readers_remaining(),
            final(self).spec_exit_published() == old(self).spec_exit_published(),
    {
        self.killed = true;
        proof {
            assert(self.spec_history() == old(self).spec_history());
            assert forall|k: int|
                0 <= k < self.spec_history().len() && is_exit_event(
                    #[trigger] self.spec_history()[k],
                ) implies k == self.spec_history().len() - 1 && self.spec_exit_published() by {
                assert(is_exit_event(old(self).spec_history()[k]));
            };
        }
        Ok(())
    }
}

/// Exit ordering: in a well-formed history the exit notification never
/// stands before a reader event — the last output line is always observed
/// before `Exited`.
pub proof fn lemma_exit_after_all_output(supervisor: Supervisor, i: int, j: int)
    requires
        supervisor.wf(),
        0 <= i < supervisor.spec_history().len(),
        0 <= j < supervisor.spec_history().len(),
        is_exit_event(supervisor.spec_history()[i]),
        is_reader_event(supervisor.spec_history()[j]),
    ensures
        j < i,
{
}

/// A history without exit notifications counts none.
proof fn lemma_count_exits_none(events: Seq<CommandEvent>)
    requires
        forall|k: int| 0 <= k < events.len() ==> !is_exit_event(#[trigger] events[k]),
    ensures
        count_exits(events) == 0,
    decreases events.len(),
{
    if events.len() > 0 {
        lemma_count_exits_none(events.drop_last());
    }
}

/// Exactly-once exit: a well-formed history never holds two exit
/// notifications.
pub proof fn lemma_at_most_one_exit(supervisor: Supervisor)
    requires
        supervisor.wf(),
    ensures
        count_exits(supervisor.spec_history()) <= 1,
{
    let events = supervisor.spec_history();
    if events.len() > 0 {
        assert(forall|k: int|
            0 <= k < events.drop_last().len() ==> !is_exit_event(#[trigger] events.drop_last()[k]));
        lemma_count_exits_none(events.drop_last());
    }
}

} // verus!
