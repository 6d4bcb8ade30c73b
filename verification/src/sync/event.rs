//! A reset event for blocking threads.
use crate::shared::event;
use crate::shared::event::WordEvent;
use vstd::prelude::*;

verus! {

/// A reset event on a [`WordEvent`].
#[derive(Clone, Copy, PartialEq, Eq, Debug, Structural)]
pub struct RawResetEvent {
    pub event: WordEvent,
}

impl RawResetEvent {
    /// Creates an event that is not set.
    pub fn new() -> (event: Self)
        ensures
            event.event.state == 0,
            !event.event.spec_is_set(),
    {
        RawResetEvent { event: WordEvent::new() }
    }

    /// Makes the event one that is not set. Nothing changes where it is not set
    /// already, so that threads that wait for it still do.
    pub fn reset(&mut self)
        ensures
            final(self).event.state == (if old(self).event.state == event::IS_SET {
                0
            } else {
                old(self).event.state
            }),
            !final(self).event.spec_is_set(),
    {
        self.event.reset()
    }

    /// Returns whether the event is set.
    pub fn is_set(&self) -> (set: bool)
        ensures
            set == self.event.spec_is_set(),
    {
        self.event.is_set()
    }
}

} // verus!
