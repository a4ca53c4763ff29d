//! The liveness heartbeat: a timed source that becomes "due" once the time
//! elapsed since the last emitted heartbeat exceeds a configured timeout.
//!
//! The caller polls it with the current reading of a monotonic clock, in
//! milliseconds; the heartbeat itself holds no timer. A due poll resets the
//! elapsed-time baseline, so at most one heartbeat is due per timeout
//! window. After `close` the source never reports due again.

use vstd::prelude::*;

verus! {

/// The heartbeat state: the timeout in whole seconds, the clock reading at
/// the last emitted heartbeat in milliseconds, and whether it was closed.
pub struct Heartbeat {
    timeout: u64,
    last_heartbeat_at: u64,
    closed: bool,
}

impl Heartbeat {
    /// The configured timeout, in whole seconds.
    pub closed spec fn spec_timeout(&self) -> u64 {
        self.timeout
    }

    /// The clock reading at the last emitted heartbeat, in milliseconds.
    pub closed spec fn spec_last(&self) -> u64 {
        self.last_heartbeat_at
    }

    /// Whether the source was closed.
    pub closed spec fn spec_closed(&self) -> bool {
        self.closed
    }

    /// When a poll at clock reading `now` reports a heartbeat due: the
    /// source is open and more whole seconds than the timeout have elapsed
    /// since the last emitted heartbeat.
    pub open spec fn due_at(&self, now: u64) -> bool {
        &&& !self.spec_closed()
        &&& now >= self.spec_last()
        &&& ((now - self.spec_last()) as int) / 1000 > self.spec_timeout() as int
    }

    /// A new open heartbeat with the given timeout in seconds, baselined at
    /// the clock reading `now`.
    pub fn new(timeout: u64, now: u64) -> (heartbeat: Heartbeat)
        ensures
            heartbeat.spec_timeout() == timeout,
            heartbeat.spec_last() == now,
            !heartbeat.spec_closed(),
    {
        Heartbeat { timeout, last_heartbeat_at: now, closed: false }
    }

    /// Closes the source permanently: it will never report due again.
    pub fn close(&mut self)
        ensures
            final(self).spec_closed(),
            final(self).spec_timeout() == old(self).spec_timeout(),
            final(self).spec_last() == old(self).spec_last(),
    {
        self.closed = true;
    }

    /// Polls the source at clock reading `now` (milliseconds). Reports due
    /// exactly when `due_at` holds; a due poll resets the baseline to `now`
    /// and any other poll leaves the state untouched.
    pub fn poll(&mut self, now: u64) -> (due: bool)
        ensures
            due == old(self).due_at(now),
            final(self).spec_timeout() == old(self).spec_timeout(),
            final(self).spec_closed() == old(self).spec_closed(),
            due ==> final(self).spec_last() == now,
            !due ==> final(self).spec_last() == old(self).spec_last(),
    {
        if self.closed {
            return false;
        }
        let elapsed: u64 = if now >= self.last_heartbeat_at {
            now - self.last_heartbeat_at
        } else {
            return false;
        };
        if elapsed / 1000 > self.timeout {
            self.last_heartbeat_at = now;
            true
        } else {
            false
        }
    }
}

/// At most one heartbeat per timeout window: right after a heartbeat became
/// due at clock reading `emitted`, no moment whose elapsed whole seconds
/// since `emitted` are within the timeout is due again.
pub proof fn lemma_heartbeat_at_most_one_per_window(
    before: Heartbeat,
    after: Heartbeat,
    emitted: u64,
    now: u64,
)
    requires
        before.due_at(emitted),
        after.spec_timeout() == before.spec_timeout(),
        after.spec_last() == emitted,
        now >= emitted,
        ((now - emitted) as int) / 1000 <= before.spec_timeout() as int,
    ensures
        !after.due_at(now),
{
}

/// At least one heartbeat once overdue: an open source whose elapsed whole
/// seconds exceed the timeout is due.
pub proof fn lemma_heartbeat_due_when_elapsed(heartbeat: Heartbeat, now: u64)
    requires
        !heartbeat.spec_closed(),
        now >= heartbeat.spec_last(),
        ((now - heartbeat.spec_last()) as int) / 1000 > heartbeat.spec_timeout() as int,
    ensures
        heartbeat.due_at(now),
{
}

/// A closed heartbeat is never due, at any clock reading.
pub proof fn lemma_heartbeat_closed_never_due(heartbeat: Heartbeat, now: u64)
    requires
        heartbeat.spec_closed(),
    ensures
        !heartbeat.due_at(now),
{
}

} // verus!
