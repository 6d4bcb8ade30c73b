//! A manual reset event of one word.
use crate::queue;
use crate::queue::{Memory, Node};
use crate::shared::event;
use crate::shared::event::{wake_order, EventStep, EventWait};
use vstd::prelude::*;

verus! {

/// A word-sized event that stays set until it is reset. A thread that is woken
/// looks at the word again and goes on only if the event is still set.
#[derive(Clone, Copy, PartialEq, Eq, Debug, Structural)]
pub struct WordEvent {
    pub event: event::WordEvent,
}

impl Default for WordEvent {
    fn default() -> (event: Self)
        ensures
            event.event.state == 0,
            !event.spec_is_set(),
    {
        WordEvent::new(false)
    }
}

impl WordEvent {
    /// An event that is set or not, as told.
    pub fn new(is_set: bool) -> (event: Self)
        ensures
            event.spec_is_set() == is_set,
            event.event.state == (if is_set {
                event::IS_SET
            } else {
                0
            }),
    {
        let mut event = event::WordEvent::new();
        if is_set {
            let _head = event.set();
        }
        WordEvent { event }
    }

    /// The event is set.
    pub open spec fn spec_is_set(self) -> bool {
        self.event.spec_is_set()
    }

    /// Tells whether the event is set.
    pub fn is_set(&self) -> (set: bool)
        ensures
            set == self.spec_is_set(),
    {
        self.event.is_set()
    }

    /// Makes the event one that is not set. Nothing changes where it is not set
    /// already, so that threads that wait for it still do.
    pub fn reset(&mut self)
        ensures
            final(self).event.state == (if old(self).event.state == event::IS_SET {
                0
            } else {
                old(self).event.state
            }),
            !final(self).spec_is_set(),
    {
        self.event.reset()
    }

    /// Sets the event. Where threads wait, the node that was pushed last comes
    /// back, and all of them are to be woken with `wake_slow`.
    pub fn set(&mut self) -> (head: Option<usize>)
        ensures
            final(self).spec_is_set(),
            head == (if event::head_of(old(self).event.state) == 0 {
                None
            } else {
                Some(event::head_of(old(self).event.state))
            }),
    {
        let head = self.event.set();
        if head == 0 {
            None
        } else {
            Some(head)
        }
    }

    /// The order in which the threads of a queue are woken: the one that came
    /// first is woken first.
    pub fn wake_slow<M: Memory<Node>>(memory: &mut M, head: usize) -> (order: Vec<usize>)
        requires
            head != 0,
            queue::has_queue(old(memory).nodes(), head),
        ensures
            order@ == queue::waiters(old(memory).nodes(), head).reverse(),
            queue::relinked(
                old(memory).nodes(),
                final(memory).nodes(),
                queue::waiters(old(memory).nodes(), head),
            ),
    {
        wake_order(memory, head)
    }

    /// Begins to wait, unless the event is set. The node is made ready.
    pub fn wait<M: Memory<Node>>(&self, memory: &mut M, address: usize) -> (wait: Option<EventWait>)
        requires
            old(memory).nodes().contains_key(address),
        ensures
            wait is None <==> self.spec_is_set(),
            wait is None ==> final(memory).nodes() == old(memory).nodes(),
            wait matches Some(wait) ==> {
                &&& wait == (EventWait { state: None, node: address })
                &&& final(memory).nodes() == old(memory).nodes().insert(
                    address,
                    Node { prev: 0, flags: event::WAIT_NODE_INIT, ..old(memory).nodes()[address] },
                )
            },
    {
        self.event.wait(memory, address)
    }

    /// Takes one step towards waiting. After a thread has waited it goes on with
    /// `EventWait::woken` and further steps until the event is set.
    pub fn wait_slow<M: Memory<Node>>(&mut self, memory: &mut M, wait: &mut EventWait) -> (step: EventStep)
        requires
            old(memory).nodes().contains_key(old(wait).node),
        ensures
            event::wait_steps(
                *old(wait),
                *final(wait),
                old(self).event.state,
                final(self).event.state,
                old(memory).nodes(),
                final(memory).nodes(),
                step,
            ),
    {
        self.event.wait_slow(memory, wait)
    }
}

} // verus!
