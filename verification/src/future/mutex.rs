//! A mutex for tasks on a signal.
use crate::signal::linux;
use crate::signal::linux::{SystemSignal, WaitStep};
use vstd::prelude::*;

verus! {

/// A value and a signal whose single permit is the right to use it.
pub struct GenericMutex<T> {
    pub signal: SystemSignal,
    pub value: T,
}

impl<T> GenericMutex<T> {
    /// Some task holds the mutex: the permit is not available.
    pub open spec fn is_held(self) -> bool {
        self.signal.state != linux::NOTIFY
    }

    /// A free mutex around a value: the permit is available.
    pub fn new(value: T) -> (mutex: Self)
        ensures
            mutex.signal.state == linux::NOTIFY,
            mutex.value == value,
            !mutex.is_held(),
    {
        let mut signal = SystemSignal::new();
        let _wake = signal.notify();
        GenericMutex { signal, value }
    }

    /// The value of a mutex that nobody uses any more.
    pub fn into_inner(self) -> (value: T)
        ensures
            value == self.value,
    {
        self.value
    }

    /// The value, which nobody else can use while the mutex is borrowed.
    pub fn get_mut(&mut self) -> (value: &mut T)
        ensures
            *value == old(self).value,
            *final(self) == (GenericMutex { signal: old(self).signal, value: *final(value) }),
    {
        &mut self.value
    }

    /// Takes the mutex if it is free.
    pub fn try_lock(&mut self) -> (acquired: bool)
        requires
            old(self).signal.wf(),
        ensures
            acquired == !old(self).is_held(),
            final(self).is_held(),
            final(self).signal.state == (if acquired {
                linux::EMPTY
            } else {
                old(self).signal.state
            }),
            final(self).value == old(self).value,
    {
        if self.signal.state == linux::NOTIFY {
            let _step = self.signal.wait();
            true
        } else {
            false
        }
    }

    /// Takes the mutex if it is free. Otherwise the task waits until the mutex is
    /// released to it.
    pub fn lock(&mut self) -> (acquired: bool)
        requires
            old(self).signal.wf(),
            old(self).signal.state != linux::WAITER,
        ensures
            acquired == !old(self).is_held(),
            final(self).is_held(),
            final(self).signal.state == (if acquired {
                linux::EMPTY
            } else {
                linux::WAITER
            }),
            final(self).value == old(self).value,
    {
        match self.signal.wait() {
            WaitStep::Done => true,
            WaitStep::Block => false,
        }
    }

    /// Releases the mutex. Tells whether a task waits for it, which then has it
    /// and is to be woken.
    pub fn force_unlock(&mut self) -> (wake: bool)
        requires
            old(self).signal.wf(),
            old(self).is_held(),
        ensures
            wake == (old(self).signal.state == linux::WAITER),
            final(self).is_held() == wake,
            final(self).signal.state == (if wake {
                linux::EMPTY
            } else {
                linux::NOTIFY
            }),
            final(self).value == old(self).value,
    {
        self.signal.notify()
    }
}

} // verus!
