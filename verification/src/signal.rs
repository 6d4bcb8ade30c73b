//! Signals by which one thread notifies another.
pub mod linux;
pub mod windows;

use self::linux::{SystemSignal, WaitStep};
use vstd::prelude::*;

verus! {

/// What a signal holds: at most one permit, and a thread that waits for one, if
/// one does.
#[derive(Clone, Copy, PartialEq, Eq, Debug, Structural)]
pub struct Permit {
    /// The permit is available.
    pub stored: bool,
    /// A thread waits for the permit.
    pub waiter: bool,
}

/// What a signal holds after a notification: a thread that waits is released,
/// and where none waits the permit is available.
pub open spec fn notified(permit: Permit) -> Permit {
    Permit { stored: !permit.waiter, waiter: false }
}

/// What a signal holds after a thread began to wait: the permit is consumed, and
/// where there was none the thread waits for one.
pub open spec fn waited(permit: Permit) -> Permit {
    Permit { stored: false, waiter: !permit.stored }
}

/// Signal provides a basic mechanism to notify a single thread of an event.
///
/// A signal holds at most one permit. To wait is to wait for the permit and to
/// consume it. To notify is to make the permit available, and to release a thread
/// that waits for it. Each method is one atomic step.
pub trait Signal: Sized {
    /// What the signal holds.
    spec fn permit(&self) -> Permit;

    /// The signal may be used.
    spec fn wf(&self) -> bool;

    /// Begins to wait. If there is a permit, it is consumed and the wait is over
    /// at once. Otherwise the thread is to block until it is released.
    fn wait(&mut self) -> (done: bool)
        requires
            old(self).wf(),
            !old(self).permit().waiter,
        ensures
            final(self).wf(),
            done == old(self).permit().stored,
            final(self).permit() == waited(old(self).permit()),
    ;

    /// Notifies. If a thread waits, it is released and to be woken. Otherwise a
    /// permit is stored, unless there is one already.
    fn notify(&mut self) -> (wake: bool)
        requires
            old(self).wf(),
        ensures
            final(self).wf(),
            wake == old(self).permit().waiter,
            final(self).permit() == notified(old(self).permit()),
    ;
}

/// A [`Signal`] implementation backed by blocking of the system.
#[derive(Clone, Copy, PartialEq, Eq, Debug, Structural)]
pub struct OsSignal {
    pub inner: SystemSignal,
}

impl Default for OsSignal {
    fn default() -> (signal: Self)
        ensures
            signal.inner.state == linux::EMPTY,
    {
        OsSignal::new()
    }
}

impl OsSignal {
    /// Creates a signal with no waiters or notifications.
    pub fn new() -> (signal: Self)
        ensures
            signal.inner.state == linux::EMPTY,
            signal.wf(),
            signal.permit() == (Permit { stored: false, waiter: false }),
    {
        OsSignal { inner: SystemSignal::new() }
    }
}

impl Signal for OsSignal {
    open spec fn permit(&self) -> Permit {
        Permit {
            stored: self.inner.state == linux::NOTIFY,
            waiter: self.inner.state == linux::WAITER,
        }
    }

    open spec fn wf(&self) -> bool {
        self.inner.wf()
    }

    fn wait(&mut self) -> (done: bool) {
        match self.inner.wait() {
            WaitStep::Done => true,
            WaitStep::Block => false,
        }
    }

    fn notify(&mut self) -> (wake: bool) {
        self.inner.notify()
    }
}

/// What a signal for tasks is about.
#[derive(Clone, Copy, PartialEq, Eq, Debug, Structural)]
pub enum RawSignalState {
    Uninit,
    Retry,
    Waiting,
}

/// How a task's wait has ended.
#[derive(Clone, Copy, PartialEq, Eq, Debug, Structural)]
pub enum RawSignalWaitResult {
    Notified,
    Cancelled,
}

/// The event behind a signal for tasks.
pub trait RawSignalEvent {
    /// How far the event has come.
    fn state(&self) -> RawSignalState;

    /// Makes the event ready for use.
    fn lazy_init(&self);

    /// Notifies the task that waits.
    fn notify(&self);

    /// Waits without blocking. Returns `None` while the task is to wait.
    fn wait(&self) -> Option<RawSignalWaitResult>;
}

/// If a notification comes before the wait, the wait is over at once, and the
/// wait after that has to wait for a new permit.
pub proof fn notification_is_kept(permit: Permit)
    requires
        !permit.waiter,
    ensures
        notified(permit).stored,
        !waited(notified(permit)).stored && !waited(notified(permit)).waiter,
        waited(waited(notified(permit))).waiter,
{
}

/// Several notifications before the wait store a single permit.
pub proof fn notifications_are_merged(permit: Permit)
    requires
        !permit.waiter,
    ensures
        notified(notified(permit)) == notified(permit),
{
}

/// A notification releases a thread that waits, and then there is no permit
/// left.
pub proof fn waiter_is_released(permit: Permit)
    requires
        permit.waiter,
    ensures
        notified(permit) == (Permit { stored: false, waiter: false }),
{
}

} // verus!
