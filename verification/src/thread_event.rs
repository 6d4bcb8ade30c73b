//! Events that stay set until they are reset.
pub mod linux;

use self::linux::{Event, Wait, WaitStep};
use vstd::prelude::*;

verus! {

/// Abstraction which provides a method of blocking and unblocking threads
/// through the interface of a manual reset event. Each method is one atomic
/// step on the event.
pub trait ThreadEvent: Sized {
    /// The event is signaled.
    spec fn signaled(&self) -> bool;

    /// The event may be used.
    spec fn wf(&self) -> bool;

    /// Checks if the event is set or not.
    fn is_set(&self) -> (set: bool)
        requires
            self.wf(),
        ensures
            set == self.signaled(),
    ;

    /// Resets the event back to an un-signaled state.
    fn reset(&mut self)
        requires
            old(self).wf(),
        ensures
            final(self).wf(),
            !final(self).signaled(),
    ;

    /// Takes one step of a thread that waits for the event to become signaled.
    /// It is done if and only if the event is signaled.
    fn wait(&mut self, wait: &mut Wait) -> (step: WaitStep)
        requires
            old(self).wf(),
        ensures
            final(self).wf(),
            final(self).signaled() == old(self).signaled(),
            step is Done <==> old(self).signaled(),
    ;

    /// Transitions the event to a signaled state. Tells whether there are
    /// threads to be unblocked.
    fn notify(&mut self) -> (wake: bool)
        requires
            old(self).wf(),
        ensures
            final(self).wf(),
            final(self).signaled(),
            old(self).signaled() ==> !wake,
    ;
}

/// The default [`ThreadEvent`], which uses the platform's blocking primitives.
#[derive(Clone, Copy, PartialEq, Eq, Debug, Structural)]
pub struct OsThreadEvent(pub Event);

impl Default for OsThreadEvent {
    fn default() -> (event: Self)
        ensures
            event.0.state == linux::IS_RESET,
    {
        OsThreadEvent(Event::new())
    }
}

impl ThreadEvent for OsThreadEvent {
    open spec fn signaled(&self) -> bool {
        self.0.spec_is_set()
    }

    open spec fn wf(&self) -> bool {
        self.0.wf()
    }

    fn is_set(&self) -> (set: bool) {
        self.0.is_set()
    }

    fn reset(&mut self)
        ensures
            final(self).0.state == (if old(self).0.state == linux::IS_SET {
                linux::IS_RESET
            } else {
                old(self).0.state
            }),
    {
        self.0.reset()
    }

    fn wait(&mut self, wait: &mut Wait) -> (step: WaitStep)
        ensures
            linux::wait_steps(*old(wait), *final(wait), old(self).0.state, final(self).0.state, step),
    {
        self.0.wait(wait)
    }

    fn notify(&mut self) -> (wake: bool)
        ensures
            wake == (old(self).0.state == linux::IS_WAITING),
            final(self).0.state == linux::IS_SET,
    {
        self.0.set()
    }
}

} // verus!
