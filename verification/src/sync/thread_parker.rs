//! Parking and unparking of threads.
use crate::thread_event::linux;
use crate::thread_event::linux::{Event, Wait, WaitStep};
use vstd::prelude::*;

verus! {

/// Abstraction used for blocking threads until notified.
///
/// A thread parker starts in a state of un-signaled. One or more threads can then
/// park on it until another unparks it, which makes it signaled and wakes up all
/// of them. A reset makes it un-signaled again. Each method is one atomic step.
pub trait ThreadParker: Sized {
    /// The parker is signaled.
    spec fn signaled(&self) -> bool;

    /// The parker may be used.
    spec fn wf(&self) -> bool;

    /// Takes one step of a thread that blocks until the parker is signaled. It is
    /// done if and only if the parker is signaled.
    fn park(&mut self, wait: &mut Wait) -> (step: WaitStep)
        requires
            old(self).wf(),
        ensures
            final(self).wf(),
            final(self).signaled() == old(self).signaled(),
            step is Done <==> old(self).signaled(),
    ;

    /// Makes the parker signaled if not already. Tells whether there are threads
    /// to be woken.
    fn unpark(&mut self) -> (wake: bool)
        requires
            old(self).wf(),
        ensures
            final(self).wf(),
            final(self).signaled(),
            old(self).signaled() ==> !wake,
    ;

    /// Makes the parker un-signaled, so that threads can block again.
    fn reset(&mut self)
        requires
            old(self).wf(),
        ensures
            final(self).wf(),
            !final(self).signaled(),
    ;
}

/// The default [`ThreadParker`] implementation for the OS.
#[derive(Clone, Copy, PartialEq, Eq, Debug, Structural)]
pub struct OsThreadParker(pub Event);

impl Default for OsThreadParker {
    fn default() -> (parker: Self)
        ensures
            parker.0.state == linux::IS_RESET,
    {
        OsThreadParker(Event::new())
    }
}

impl ThreadParker for OsThreadParker {
    open spec fn signaled(&self) -> bool {
        self.0.spec_is_set()
    }

    open spec fn wf(&self) -> bool {
        self.0.wf()
    }

    fn park(&mut self, wait: &mut Wait) -> (step: WaitStep)
        ensures
            linux::wait_steps(*old(wait), *final(wait), old(self).0.state, final(self).0.state, step),
    {
        self.0.wait(wait)
    }

    fn unpark(&mut self) -> (wake: bool)
        ensures
            wake == (old(self).0.state == linux::IS_WAITING),
            final(self).0.state == linux::IS_SET,
    {
        self.0.set()
    }

    fn reset(&mut self)
        ensures
            final(self).0.state == (if old(self).0.state == linux::IS_SET {
                linux::IS_RESET
            } else {
                old(self).0.state
            }),
    {
        self.0.reset()
    }
}

} // verus!
