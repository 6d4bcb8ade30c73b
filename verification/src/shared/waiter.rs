//! Waiting nodes that know how far they have come.
use crate::queue;
use crate::queue::{find_linked_tail, Linked, Memory, Node};
use vstd::prelude::*;

verus! {

/// How far a waiting node has come.
#[derive(Clone, Copy, PartialEq, Eq, Debug, Structural)]
pub enum WaiterState {
    /// It has never been in a queue and has no signal yet.
    Uninit,
    /// It is in a queue.
    Enqueued,
    /// It is in a queue and its back link is set.
    Processed,
    /// It has left the queue.
    Dequeued,
}

/// A waiting node. Its signal is made when it is first enqueued.
#[derive(Clone, Copy, PartialEq, Eq, Debug, Structural)]
pub struct Waiter {
    pub state: WaiterState,
    pub node: Node,
}

impl Linked for Waiter {
    open spec fn node(self) -> Node {
        self.node
    }

    open spec fn relink(self, node: Node) -> Self {
        Waiter { state: WaiterState::Processed, node }
    }

    proof fn relink_gives(self, node: Node) {
    }

    fn get_node(&self) -> (node: Node) {
        self.node
    }

    fn set_node(self, node: Node) -> (linked: Self) {
        Waiter { state: WaiterState::Processed, node }
    }
}

/// The waiter is in a queue.
pub open spec fn is_queued(waiter: Waiter) -> bool {
    waiter.state == WaiterState::Enqueued || waiter.state == WaiterState::Processed
}

/// What becomes of a waiter that is enqueued in front of `head`.
pub open spec fn enqueued(waiter: Waiter, address: usize, head: usize) -> Waiter {
    Waiter {
        state: if head == 0 {
            WaiterState::Processed
        } else {
            WaiterState::Enqueued
        },
        node: queue::pushed(
            Node {
                prev: if waiter.state == WaiterState::Enqueued {
                    waiter.node.prev
                } else {
                    0
                },
                ..waiter.node
            },
            address,
            head,
        ),
    }
}

impl Waiter {
    /// A waiter that is in no queue.
    pub fn new() -> (waiter: Self)
        ensures
            waiter.state == WaiterState::Uninit,
            waiter.node == (Node { prev: 0, next: 0, tail: 0, flags: 0 }),
    {
        Waiter { state: WaiterState::Uninit, node: Node::new() }
    }

    /// Tells whether the signal was made, so that it can be used and has to be
    /// dropped with the waiter.
    pub fn has_signal(&self) -> (made: bool)
        ensures
            made == (self.state != WaiterState::Uninit),
    {
        match self.state {
            WaiterState::Uninit => false,
            _ => true,
        }
    }

    /// Links the waiter at `address` in front of the queue of `head`. The address
    /// of the new head comes back, and with it whether the signal is to be made.
    pub fn enqueue<M: Memory<Waiter>>(memory: &mut M, address: usize, head: usize) -> (result: (usize, bool))
        requires
            old(memory).nodes().contains_key(address),
            old(memory).nodes()[address].state != WaiterState::Processed,
        ensures
            result.0 == address,
            result.1 == (old(memory).nodes()[address].state == WaiterState::Uninit),
            final(memory).nodes() == old(memory).nodes().insert(
                address,
                enqueued(old(memory).nodes()[address], address, head),
            ),
    {
        let mut waiter = memory.read(address);
        let init_signal = !waiter.has_signal();
        match waiter.state {
            WaiterState::Enqueued => {},
            _ => {
                waiter.node.prev = 0;
                waiter.state = WaiterState::Enqueued;
            },
        }
        waiter.node.next = head;
        if head == 0 {
            waiter.state = WaiterState::Processed;
            waiter.node.tail = address;
        } else {
            waiter.node.tail = 0;
        }
        memory.write(address, waiter);
        (address, init_signal)
    }

    /// Finds the waiter that was enqueued first. The waiters on the way are
    /// processed.
    pub fn find_tail<M: Memory<Waiter>>(memory: &mut M, head: usize) -> (tail: usize)
        requires
            head != 0,
            queue::has_queue(queue::links(old(memory).nodes()), head),
            forall|i: int|
                0 <= i < queue::waiters(queue::links(old(memory).nodes()), head).len()
                    ==> is_queued(
                    #[trigger] old(memory).nodes()[queue::waiters(
                        queue::links(old(memory).nodes()),
                        head,
                    )[i]],
                ),
        ensures
            tail == queue::waiters(queue::links(old(memory).nodes()), head).last(),
            queue::is_queue(
                queue::links(final(memory).nodes()),
                head,
                queue::waiters(queue::links(old(memory).nodes()), head),
            ),
            queue::linked(
                queue::links(final(memory).nodes()),
                queue::waiters(queue::links(old(memory).nodes()), head),
            ),
            exists|known: int|
                queue::chained(
                    queue::links(old(memory).nodes()),
                    queue::waiters(queue::links(old(memory).nodes()), head),
                    known,
                ) && #[trigger] queue::searched(
                    old(memory).nodes(),
                    final(memory).nodes(),
                    queue::waiters(queue::links(old(memory).nodes()), head),
                    known,
                ),
    {
        find_linked_tail(memory, head)
    }

    /// Takes the waiter at `tail` out of the queue of `head`. Tells whether it
    /// was the only one.
    pub fn dequeue<M: Memory<Waiter>>(memory: &mut M, head: usize, tail: usize) -> (last: bool)
        requires
            old(memory).nodes().contains_key(head),
            old(memory).nodes().contains_key(tail),
            old(memory).nodes()[head].state == WaiterState::Processed,
        ensures
            last == (head == tail),
            final(memory).nodes() == dequeued(old(memory).nodes(), head, tail),
    {
        let mut waiter = memory.read(tail);
        waiter.state = WaiterState::Dequeued;
        memory.write(tail, waiter);
        let mut first = memory.read(head);
        first.node.tail = waiter.node.prev;
        memory.write(head, first);
        head == tail
    }

    /// Makes a waiter that was taken out as the only one the tail of itself
    /// again.
    pub fn reset<M: Memory<Waiter>>(memory: &mut M, head: usize, tail: usize)
        requires
            head == tail,
            old(memory).nodes().contains_key(head),
            old(memory).nodes()[head].state == WaiterState::Dequeued,
        ensures
            final(memory).nodes() == restored(old(memory).nodes(), head),
    {
        let mut waiter = memory.read(head);
        waiter.node.tail = head;
        memory.write(head, waiter);
    }
}

/// The waiters after the one at `tail` was taken out.
pub open spec fn dequeued(nodes: Map<usize, Waiter>, head: usize, tail: usize) -> Map<usize, Waiter> {
    let mid = nodes.insert(tail, Waiter { state: WaiterState::Dequeued, ..nodes[tail] });
    mid.insert(
        head,
        Waiter { node: queue::shortened(mid[head].node, nodes[tail].node.prev), ..mid[head] },
    )
}

/// The waiters after the one at `head` was made the tail of itself.
pub open spec fn restored(nodes: Map<usize, Waiter>, head: usize) -> Map<usize, Waiter> {
    nodes.insert(head, Waiter { node: queue::shortened(nodes[head].node, head), ..nodes[head] })
}

/// Enqueueing a waiter puts it in front of all others.
pub proof fn enqueue_extends(nodes: Map<usize, Waiter>, head: usize, address: usize)
    requires
        queue::has_queue(queue::links(nodes), head),
        address != 0,
        nodes.contains_key(address),
        !queue::waiters(queue::links(nodes), head).contains(address),
        nodes[address].state == WaiterState::Enqueued ==> nodes[address].node.prev == 0,
    ensures
        ({
            let after = nodes.insert(address, enqueued(nodes[address], address, head));
            &&& queue::has_queue(queue::links(after), address)
            &&& queue::waiters(queue::links(after), address) == seq![address] + queue::waiters(
                queue::links(nodes),
                head,
            )
        }),
{
    let before = queue::links(nodes);
    let after = nodes.insert(address, enqueued(nodes[address], address, head));
    let queue = queue::waiters(before, head);
    let ready = before.insert(address, Node { prev: 0, ..before[address] });
    queue::queue_is_framed(before, ready, head, queue);
    queue::push_extends(ready, head, queue, address);
    assert(queue::links(after) =~= ready.insert(
        address,
        queue::pushed(ready[address], address, head),
    ));
    queue::waiters_of(queue::links(after), address, seq![address] + queue);
}

/// Once the tail was found, the head is processed.
pub proof fn search_processes_head(
    before: Map<usize, Waiter>,
    after: Map<usize, Waiter>,
    queue: Seq<usize>,
    known: int,
)
    requires
        queue.len() > 0,
        queue::chained(queue::links(before), queue, known),
        queue::searched(before, after, queue, known),
        known == 0 ==> before[queue[0]].state == WaiterState::Processed,
    ensures
        after[queue[0]].state == WaiterState::Processed,
{
}

/// Taking the tail out of a queue of several waiters leaves the others, in their
/// order.
pub proof fn dequeue_shortens(nodes: Map<usize, Waiter>, head: usize, queue: Seq<usize>)
    requires
        head != 0,
        queue::is_queue(queue::links(nodes), head, queue),
        queue::linked(queue::links(nodes), queue),
        queue.len() > 1,
    ensures
        head != queue.last(),
        queue::has_queue(queue::links(dequeued(nodes, head, queue.last())), head),
        queue::waiters(queue::links(dequeued(nodes, head, queue.last())), head)
            == queue.drop_last(),
{
    let tail = queue.last();
    let after = dequeued(nodes, head, tail);
    assert(queue[0] != queue[queue.len() - 1]);
    queue::pop_shortens(queue::links(nodes), head, queue);
    assert(queue.contains(queue[0]));
    assert(queue::links(nodes).contains_key(queue[queue.len() - 1]));
    assert(queue::links(after) =~= queue::links(nodes).insert(
        head,
        queue::shortened(queue::links(nodes)[head], queue::links(nodes)[tail].prev),
    ));
    queue::waiters_of(queue::links(after), head, queue.drop_last());
}

/// Taking the only waiter out of a queue and resetting it gives that queue back.
pub proof fn reset_undoes_dequeue(nodes: Map<usize, Waiter>, head: usize)
    requires
        head != 0,
        queue::is_queue(queue::links(nodes), head, seq![head]),
    ensures
        queue::is_queue(
            queue::links(restored(dequeued(nodes, head, head), head)),
            head,
            seq![head],
        ),
        queue::links(restored(dequeued(nodes, head, head), head)) == queue::links(nodes),
{
    let queue = seq![head];
    let known = choose|known: int| queue::chained(queue::links(nodes), queue, known);
    assert(queue[0] == head);
    assert(queue::links(nodes).contains_key(queue[0]));
    assert(queue::links(nodes)[queue[known]].tail == queue.last());
    assert(queue::links(restored(dequeued(nodes, head, head), head)) =~= queue::links(nodes));
}

} // verus!
