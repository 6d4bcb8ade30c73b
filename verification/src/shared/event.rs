//! An event of one word.
//!
//! The word of an event that is set is one. The word of an event that is not set
//! is the address of the node that was pushed last, or null.
use crate::lock_word::compare_exchange;
use crate::queue;
use crate::queue::{find_tail, Memory, Node};
use vstd::prelude::*;

verus! {

/// The event is set.
pub const IS_SET: usize = 1;

/// The flags of a node that a waiting thread has made ready.
pub const WAIT_NODE_INIT: u8 = 1;

/// The node that was pushed last, or null.
pub open spec fn head_of(word: usize) -> usize {
    word & !IS_SET
}

/// The address of a node leaves room for the flag.
pub open spec fn is_address(address: usize) -> bool {
    address != 0 && address & IS_SET == 0
}

/// A word is the flag alone or no more than an address.
pub proof fn event_fields(word: usize)
    by (bit_vector)
    ensures
        head_of(IS_SET) == 0,
        head_of(0) == 0,
        word & IS_SET == 0 ==> head_of(word) == word,
        word & IS_SET == 0 ==> word != IS_SET,
        0usize & IS_SET == 0,
{
}

/// A thread that is going to wait for the event.
#[derive(Clone, Copy, PartialEq, Eq, Debug, Structural)]
pub struct EventWait {
    /// The word as the thread has seen it last, or `None` if it must look.
    pub state: Option<usize>,
    /// The thread's node.
    pub node: usize,
}

/// What came of one step of a thread that is going to wait.
#[derive(Clone, Copy, PartialEq, Eq, Debug, Structural)]
pub enum EventStep {
    /// The event is set, so there is nothing to wait for.
    IsSet,
    /// There is more to do.
    Continue,
    /// The node is in the queue and the thread is to block.
    Wait,
}

/// One step of `before` on the word and the nodes.
pub open spec fn wait_steps(
    before: EventWait,
    after: EventWait,
    word: usize,
    new_word: usize,
    nodes: Map<usize, Node>,
    new_nodes: Map<usize, Node>,
    step: EventStep,
) -> bool {
    match before.state {
        None => {
            &&& step == EventStep::Continue
            &&& after == (EventWait { state: Some(word), ..before })
            &&& new_word == word
            &&& new_nodes == nodes
        },
        Some(state) => if state == IS_SET {
            &&& step == EventStep::IsSet
            &&& after == before
            &&& new_word == word
            &&& new_nodes == nodes
        } else {
            &&& new_nodes == nodes.insert(
                before.node,
                queue::pushed(nodes[before.node], before.node, head_of(state)),
            )
            &&& if word == state {
                &&& step == EventStep::Wait
                &&& after == before
                &&& new_word == before.node
            } else {
                &&& step == EventStep::Continue
                &&& after == (EventWait { state: Some(word), ..before })
                &&& new_word == word
            }
        },
    }
}

impl EventWait {
    /// Goes on after the thread was woken: its node has no back link any more
    /// and the thread looks at the word again.
    pub fn woken<M: Memory<Node>>(&mut self, memory: &mut M)
        requires
            old(memory).nodes().contains_key(old(self).node),
        ensures
            *final(self) == (EventWait { state: None, ..*old(self) }),
            final(memory).nodes() == old(memory).nodes().insert(
                old(self).node,
                Node { prev: 0, ..old(memory).nodes()[old(self).node] },
            ),
    {
        let node = memory.read(self.node);
        memory.write(
            self.node,
            Node { prev: 0, next: node.next, tail: node.tail, flags: node.flags },
        );
        self.state = None;
    }
}

/// A word-sized event that any number of threads can wait for. Each method is
/// one atomic step on the word.
#[derive(Clone, Copy, PartialEq, Eq, Debug, Structural)]
pub struct WordEvent {
    pub state: usize,
}

impl WordEvent {
    /// An event that is not set.
    pub fn new() -> (event: Self)
        ensures
            event.state == 0,
            !event.spec_is_set(),
    {
        WordEvent { state: 0 }
    }

    /// The event is set.
    pub open spec fn spec_is_set(self) -> bool {
        self.state == IS_SET
    }

    /// The nodes of the threads that wait, from the one that came last to the
    /// one that came first.
    pub open spec fn waiting(self, nodes: Map<usize, Node>) -> Seq<usize> {
        queue::waiters(nodes, head_of(self.state))
    }

    /// Makes the event one that is not set. Nothing changes where it is not set
    /// already, so that threads that wait for it still do.
    pub fn reset(&mut self)
        ensures
            final(self).state == (if old(self).state == IS_SET {
                0
            } else {
                old(self).state
            }),
            !final(self).spec_is_set(),
    {
        if self.state == IS_SET {
            self.state = 0;
        }
    }

    /// Tells whether the event is set.
    pub fn is_set(&self) -> (set: bool)
        ensures
            set == self.spec_is_set(),
    {
        self.state == IS_SET
    }

    /// Sets the event. The node that was pushed last comes back, or null where
    /// no thread waits. All threads from there on are to be woken, in the order
    /// that `wake_order` gives.
    pub fn set(&mut self) -> (head: usize)
        ensures
            final(self).spec_is_set(),
            head == head_of(old(self).state),
    {
        let state: usize = self.state;
        self.state = IS_SET;
        state & !IS_SET
    }

    /// Begins to wait, unless the event is set. The node is made ready.
    pub fn wait<M: Memory<Node>>(&self, memory: &mut M, address: usize) -> (wait: Option<EventWait>)
        requires
            old(memory).nodes().contains_key(address),
        ensures
            wait is None <==> self.spec_is_set(),
            wait is None ==> final(memory).nodes() == old(memory).nodes(),
            wait matches Some(wait) ==> {
                &&& wait == (EventWait { state: None, node: address })
                &&& final(memory).nodes() == old(memory).nodes().insert(
                    address,
                    Node { prev: 0, flags: WAIT_NODE_INIT, ..old(memory).nodes()[address] },
                )
            },
    {
        if self.state == IS_SET {
            return None;
        }
        let node = memory.read(address);
        memory.write(
            address,
            Node { prev: 0, next: node.next, tail: node.tail, flags: WAIT_NODE_INIT },
        );
        Some(EventWait { state: None, node: address })
    }

    /// Takes one step towards waiting.
    pub fn wait_slow<M: Memory<Node>>(&mut self, memory: &mut M, wait: &mut EventWait) -> (step: EventStep)
        requires
            old(memory).nodes().contains_key(old(wait).node),
        ensures
            wait_steps(
                *old(wait),
                *final(wait),
                old(self).state,
                final(self).state,
                old(memory).nodes(),
                final(memory).nodes(),
                step,
            ),
    {
        let state: usize = match wait.state {
            None => {
                wait.state = Some(self.state);
                return EventStep::Continue;
            },
            Some(state) => state,
        };
        if state == IS_SET {
            return EventStep::IsSet;
        }
        let head = state & !IS_SET;
        let node = memory.read(wait.node);
        let tail: usize = if head == 0 {
            wait.node
        } else {
            0
        };
        memory.write(wait.node, Node { prev: node.prev, next: head, tail, flags: node.flags });
        match compare_exchange(&mut self.state, state, wait.node) {
            Ok(_) => EventStep::Wait,
            Err(state) => {
                wait.state = Some(state);
                EventStep::Continue
            },
        }
    }
}

/// The order in which the threads of a queue are woken once the event is set:
/// the one that came first is woken first.
pub fn wake_order<M: Memory<Node>>(memory: &mut M, head: usize) -> (order: Vec<usize>)
    requires
        queue::has_queue(old(memory).nodes(), head),
    ensures
        order@ == queue::waiters(old(memory).nodes(), head).reverse(),
        head == 0 ==> final(memory).nodes() == old(memory).nodes(),
        head != 0 ==> queue::relinked(
            old(memory).nodes(),
            final(memory).nodes(),
            queue::waiters(old(memory).nodes(), head),
        ),
{
    let mut order: Vec<usize> = Vec::new();
    let ghost queue = queue::waiters(memory.nodes(), head);
    if head == 0 {
        assert(queue::is_queue(memory.nodes(), head, queue));
        assert(order@ =~= queue.reverse());
        return order;
    }
    let mut node = find_tail(memory, head);
    order.push(node);
    let ghost mut i: int = queue.len() - 1;
    let mut prev: usize = memory.read(node).prev;
    while prev != 0
        invariant
            head != 0,
            queue::is_queue(memory.nodes(), head, queue),
            queue::linked(memory.nodes(), queue),
            0 <= i < queue.len(),
            node == queue[i],
            prev == memory.nodes()[node].prev,
            order@ == queue.reverse().take(queue.len() - i),
        decreases i,
    {
        assert(i > 0);
        node = prev;
        proof {
            i = i - 1;
            assert(queue[i] == prev);
        }
        order.push(node);
        assert(order@ =~= queue.reverse().take(queue.len() - i));
        prev = memory.read(node).prev;
    }
    proof {
        if i > 0 {
            assert(memory.nodes()[queue[i]].prev == queue[i - 1]);
            assert(queue[i - 1] != 0);
        }
        assert(order@ =~= queue.reverse());
    }
    order
}

} // verus!
