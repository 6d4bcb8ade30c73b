//! Laws of the queues of waiting nodes.
use crate::queue;
use crate::queue::{Memory, Node};
use crate::shared::waiter;
use crate::shared::waiter::{Waiter, WaiterState};
use crate::sync::wait_node::{State, WaitNode};
use crate::sync::rwlock::Tag;
use vstd::prelude::*;

verus! {

/// A queue is what its links lead to: from the newest node along the links to the next, and
/// where a node remembers the tail, from there back to it along the links to the one before.
pub proof fn links_lead_through_the_queue(nodes: Map<usize, Node>, head: usize, queue: Seq<usize>)
    requires
        queue::is_queue(nodes, head, queue),
    ensures
        queue::waiters(nodes, head) == queue,
        head == 0 <==> queue.len() == 0,
        queue.no_duplicates(),
        queue.len() > 0 ==> queue[0] == head && nodes[head].prev == 0 && exists|known: int|
            0 <= known < queue.len() && #[trigger] nodes[queue[known]].tail == queue.last() && (forall|i: int|
                0 <= i < known ==> #[trigger] nodes[queue[i]].next == queue[i + 1]) && (forall|i: int|
                known < i < queue.len() ==> #[trigger] nodes[queue[i]].prev == queue[i - 1]),
{
    queue::waiters_of(nodes, head, queue);
    if queue.len() > 0 {
        let known = choose|known: int| queue::chained(nodes, queue, known);
        assert(nodes[queue[known]].tail == queue.last());
    }
}

/// Looking for the tail finds the node that has waited longest, and leaves the queue as it is.
pub proof fn tail_has_waited_longest<M: Memory<Node>, W: Memory<WaitNode<Tag>>>(
    memory: &mut M,
    waiting: &mut W,
    head: usize,
    tail: usize,
)
    requires
        head != 0,
    ensures
        queue::has_queue(old(memory).nodes(), head) && call_ensures(
            queue::find_tail::<M>,
            (memory, head),
            tail,
        ) ==> tail == queue::waiters(old(memory).nodes(), head).last() && queue::waiters(
            final(memory).nodes(),
            head,
        ) == queue::waiters(old(memory).nodes(), head),
        queue::has_queue(queue::links(old(waiting).nodes()), head) && call_ensures(
            WaitNode::<Tag>::tail::<W>,
            (waiting, head),
            tail,
        ) ==> tail == queue::waiters(queue::links(old(waiting).nodes()), head).last() && queue::waiters(
            queue::links(final(waiting).nodes()),
            head,
        ) == queue::waiters(queue::links(old(waiting).nodes()), head),
{
    let plain = queue::waiters(old(memory).nodes(), head);
    if queue::has_queue(old(memory).nodes(), head) && call_ensures(
        queue::find_tail::<M>,
        (memory, head),
        tail,
    ) {
        queue::waiters_of(final(memory).nodes(), head, plain);
    }
    let tagged = queue::waiters(queue::links(old(waiting).nodes()), head);
    if queue::has_queue(queue::links(old(waiting).nodes()), head) && call_ensures(
        WaitNode::<Tag>::tail::<W>,
        (waiting, head),
        tail,
    ) {
        queue::waiters_of(queue::links(final(waiting).nodes()), head, tagged);
    }
}

/// A node that is pushed comes before the one that was the newest, and remembers itself as the
/// tail if there was none. It is made to wait if it was not used before.
pub proof fn pushed_node_comes_first<M: Memory<WaitNode<Tag>>>(
    memory: &mut M,
    address: usize,
    head: usize,
    result: (usize, bool),
)
    requires
        call_ensures(WaitNode::<Tag>::push::<M>, (memory, address, head), result),
    ensures
        ({
            let before = old(memory).nodes()[address];
            let after = final(memory).nodes()[address];
            &&& result.0 == address
            &&& result.1 <==> before.state == State::Uninit
            &&& after.tag == before.tag
            &&& after.node.next == head
            &&& after.node.tail == (if head == 0 {
                address
            } else {
                0
            })
            &&& before.state == State::Uninit ==> after.state == State::Waiting && after.node.prev == 0
            &&& before.state != State::Uninit ==> after.state == before.state && after.node.prev
                == before.node.prev
            &&& forall|a: usize| a != address ==> #[trigger] final(memory).nodes()[a] == old(memory).nodes()[a]
        }),
{
}

/// A node that was taken out is found by the link to the one before it, which becomes the
/// tail. A node that is reset has no such link, and one that is notified keeps its links.
pub proof fn nodes_are_taken_out<M: Memory<WaitNode<Tag>>>(
    memory: &mut M,
    address: usize,
    new_tail: usize,
    next: usize,
)
    ensures
        call_ensures(WaitNode::<Tag>::next::<M>, (&*old(memory), address), next) ==> next == old(memory).nodes()[address].node.prev,
        call_ensures(WaitNode::<Tag>::pop::<M>, (memory, address, new_tail), ()) ==> {
            &&& new_tail == 0 ==> final(memory).nodes() == old(memory).nodes()
            &&& new_tail != 0 ==> final(memory).nodes()[address].node.tail == new_tail
                && final(memory).nodes()[address].node.prev == old(memory).nodes()[address].node.prev
                && final(memory).nodes()[address].node.next == old(memory).nodes()[address].node.next
                && final(memory).nodes()[address].state == old(memory).nodes()[address].state
            &&& forall|a: usize| a != address ==> #[trigger] final(memory).nodes()[a] == old(memory).nodes()[a]
        },
        call_ensures(WaitNode::<Tag>::reset::<M>, (memory, address), ()) ==> final(memory).nodes()[address].node.prev
            == 0 && final(memory).nodes()[address].state == old(memory).nodes()[address].state && final(memory).nodes()[address].tag == old(memory).nodes()[address].tag,
        call_ensures(WaitNode::<Tag>::notify::<M>, (memory, address), ()) ==> final(memory).nodes()[address].state
            == State::Notified && final(memory).nodes()[address].node == old(memory).nodes()[address].node
            && final(memory).nodes()[address].tag == old(memory).nodes()[address].tag,
{
}

/// A waiter that is enqueued comes before the one that was the newest. The first one in a
/// queue has been processed, as there is nobody to link it to.
pub proof fn enqueued_waiter_comes_first<M: Memory<Waiter>>(
    memory: &mut M,
    address: usize,
    head: usize,
    result: (usize, bool),
    waiter: Waiter,
    made: bool,
)
    ensures
        call_ensures(Waiter::enqueue::<M>, (memory, address, head), result) ==> {
            let before = old(memory).nodes()[address];
            let after = final(memory).nodes()[address];
            &&& result.0 == address
            &&& result.1 <==> before.state == WaiterState::Uninit
            &&& after.state == (if head == 0 {
                WaiterState::Processed
            } else {
                WaiterState::Enqueued
            })
            &&& after.node.next == head
            &&& after.node.tail == (if head == 0 {
                address
            } else {
                0
            })
            &&& before.state != WaiterState::Enqueued ==> after.node.prev == 0
            &&& before.state == WaiterState::Enqueued ==> after.node.prev == before.node.prev
            &&& after.node.flags == before.node.flags
            &&& forall|a: usize| a != address ==> #[trigger] final(memory).nodes()[a] == old(memory).nodes()[a]
        },
        call_ensures(Waiter::has_signal, (&waiter,), made) ==> (made <==> waiter.state != WaiterState::Uninit),
{
}

/// A waiter that is taken out knows it, and the one before it becomes the tail. Where it was
/// the last one that is told, and a reset makes it the tail again.
pub proof fn dequeued_waiter_is_not_the_tail<M: Memory<Waiter>>(
    memory: &mut M,
    head: usize,
    tail: usize,
    last: bool,
)
    ensures
        call_ensures(Waiter::dequeue::<M>, (memory, head, tail), last) ==> {
            &&& last <==> head == tail
            &&& final(memory).nodes()[tail].state == WaiterState::Dequeued
            &&& final(memory).nodes()[head].node.tail == old(memory).nodes()[tail].node.prev
            &&& forall|a: usize|
                a != head && a != tail ==> #[trigger] final(memory).nodes()[a] == old(memory).nodes()[a]
        },
        call_ensures(Waiter::reset::<M>, (memory, head, tail), ()) ==> final(memory).nodes()[head].node.tail
            == head && forall|a: usize| a != head ==> #[trigger] final(memory).nodes()[a] == old(memory).nodes()[a],
        call_ensures(Waiter::find_tail::<M>, (memory, head), tail) && queue::has_queue(
            queue::links(old(memory).nodes()),
            head,
        ) ==> tail == queue::waiters(queue::links(old(memory).nodes()), head).last(),
{
}

} // verus!
