//! Events for tasks and the locks around them.
pub mod windows;

use crate::event::linux;
use crate::event::linux::{Notify, NotifyStep, Signal, Wait, WaitStep};
use crate::event::time::OsInstant;
use vstd::prelude::*;

verus! {

/// An event that one thread sets and another waits for and consumes.
pub trait AutoResetEvent: Sized {
    /// Sets the event and wakes a thread that waits for it.
    fn set(&self);

    /// Waits for the event to be set and consumes it.
    fn wait(&self);

    /// Hints to the platform that a thread is spinning. Returns whether the
    /// thread should continue spinning or not.
    fn yield_now(iteration: usize) -> bool;
}

/// An event that can be waited for with a timeout.
pub trait AutoResetEventTimed: AutoResetEvent {
    /// A fixed amount of time.
    type Duration;

    /// Waits for the event to be set and consumes it. Returns false if that did
    /// not happen in time.
    fn try_wait(&self, timeout: Self::Duration) -> bool;
}

/// An event on the primitives of the system.
#[derive(Clone, Copy, PartialEq, Eq, Debug, Structural)]
pub struct OsAutoResetEvent {
    pub inner: Signal,
}

impl Default for OsAutoResetEvent {
    fn default() -> (event: Self)
        ensures
            event.inner.state == linux::EMPTY,
    {
        OsAutoResetEvent::new()
    }
}

impl OsAutoResetEvent {
    /// An event that is not set.
    pub fn new() -> (event: Self)
        ensures
            event.inner.state == linux::EMPTY,
    {
        OsAutoResetEvent { inner: Signal::new() }
    }

    /// Takes one step of a thread that sets the event.
    pub fn set(&mut self, notify: &mut Notify) -> (step: NotifyStep)
        requires
            old(self).inner.wf(),
        ensures
            final(self).inner.wf(),
            linux::notify_steps(
                *old(notify),
                *final(notify),
                old(self).inner.state,
                final(self).inner.state,
                step,
            ),
    {
        self.inner.notify(notify)
    }

    /// Takes one step of a thread that waits for the event and consumes it, until
    /// an instant in time if there is one.
    pub fn try_wait(
        &mut self,
        wait: &mut Wait,
        timeout: Option<OsInstant>,
        now: OsInstant,
        max_secs: u64,
    ) -> (step: WaitStep)
        requires
            old(self).inner.wf(),
            *old(wait) == Wait::Load || *old(wait) == Wait::Exchange ==> old(self).inner.state
                != linux::WAITING,
        ensures
            final(self).inner.wf(),
            linux::wait_steps(
                *old(wait),
                *final(wait),
                old(self).inner.state,
                final(self).inner.state,
                timeout,
                now,
                max_secs,
                step,
            ),
    {
        self.inner.try_wait(wait, timeout, now, max_secs)
    }

    /// Hints that a thread spins. Returns whether it should go on spinning.
    pub fn yield_now(iteration: usize) -> (spins: bool)
        ensures
            spins == (iteration < 40),
    {
        windows::yield_now(iteration)
    }
}

} // verus!
