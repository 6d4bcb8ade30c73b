//! A signal on a futex.
use crate::event::time::{OsDuration, OsInstant};
use vstd::prelude::*;

verus! {

/// There is neither a permit nor a waiting thread.
pub const EMPTY: u32 = 0;

/// There is a permit.
pub const NOTIFY: u32 = 1;

/// A thread waits.
pub const WAITER: u32 = 2;

/// What a thread that waits has to do next.
#[derive(Clone, Copy, PartialEq, Eq, Debug, Structural)]
pub enum WaitStep {
    /// It has consumed a permit.
    Done,
    /// It is to block while the state is `WAITER`.
    Block,
}

/// A signal that holds at most one permit. Each method is one atomic step on the
/// state.
#[derive(Clone, Copy, PartialEq, Eq, Debug, Structural)]
pub struct SystemSignal {
    pub state: u32,
}

impl SystemSignal {
    /// A signal without a permit.
    pub fn new() -> (signal: Self)
        ensures
            signal.state == EMPTY,
    {
        SystemSignal { state: EMPTY }
    }

    /// The state is one of the three.
    pub open spec fn wf(self) -> bool {
        self.state == EMPTY || self.state == NOTIFY || self.state == WAITER
    }

    /// Releases a thread that waits, which is to be woken then, or stores a
    /// permit.
    pub fn notify(&mut self) -> (wake: bool)
        requires
            old(self).wf(),
        ensures
            final(self).wf(),
            wake == (old(self).state == WAITER),
            final(self).state == (if wake {
                EMPTY
            } else {
                NOTIFY
            }),
    {
        if self.state == WAITER {
            self.state = EMPTY;
            true
        } else {
            self.state = NOTIFY;
            false
        }
    }

    /// Stores a permit if there is nothing, and otherwise leaves nothing. Tells
    /// whether all threads are to be woken because one waits.
    pub fn notify_all(&mut self) -> (wake: bool)
        requires
            old(self).wf(),
        ensures
            final(self).wf(),
            wake == (old(self).state == WAITER),
            final(self).state == (if old(self).state == EMPTY {
                NOTIFY
            } else {
                EMPTY
            }),
    {
        if self.state == EMPTY {
            self.state = NOTIFY;
            return false;
        }
        let state: u32 = self.state;
        self.state = EMPTY;
        state == WAITER
    }

    /// Consumes a permit, or tells that a thread waits, which is then to block
    /// until it is released.
    pub fn wait(&mut self) -> (step: WaitStep)
        requires
            old(self).wf(),
            old(self).state != WAITER,
        ensures
            final(self).wf(),
            step == (if old(self).state == NOTIFY {
                WaitStep::Done
            } else {
                WaitStep::Block
            }),
            final(self).state == (if old(self).state == NOTIFY {
                EMPTY
            } else {
                WAITER
            }),
    {
        if self.state == NOTIFY {
            self.state = EMPTY;
            WaitStep::Done
        } else {
            self.state = WAITER;
            WaitStep::Block
        }
    }

    /// Goes on with a thread that blocks no longer than `duration` from `start`
    /// on, at the moment `now`. Returns whether it was released, or `None` if it
    /// is to block further. A thread that was not released in time no longer
    /// waits.
    pub fn wait_timeout(
        &mut self,
        start: OsInstant,
        duration: OsDuration,
        now: OsInstant,
    ) -> (released: Option<bool>)
        requires
            old(self).wf(),
            start.timestamp <= now.timestamp,
        ensures
            final(self).wf(),
            released == (if old(self).state != WAITER {
                Some(true)
            } else if now.timestamp - start.timestamp >= duration.total() {
                Some(false)
            } else {
                None
            }),
            final(self).state == (if released == Some(false) {
                EMPTY
            } else {
                old(self).state
            }),
    {
        if self.state != WAITER {
            return Some(true);
        }
        let waited = now.duration_since(start).as_nanos();
        if waited >= duration.as_nanos() {
            self.state = EMPTY;
            Some(false)
        } else {
            None
        }
    }
}

} // verus!
