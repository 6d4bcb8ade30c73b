//! Waiting nodes that carry a tag.
use crate::queue;
use crate::queue::{find_linked_tail, Linked, Memory, Node};
use vstd::prelude::*;

verus! {

/// How far a waiting node has come.
#[derive(Clone, Copy, PartialEq, Eq, Debug, Structural)]
pub enum State {
    /// The node has never been in a queue and has no event yet.
    Uninit,
    /// The node is in a queue.
    Waiting,
    /// The thread of the node was notified.
    Notified,
}

/// A waiting node. Its event is made when it is first pushed.
#[derive(Clone, Copy, PartialEq, Eq, Debug, Structural)]
pub struct WaitNode<T> {
    pub tag: T,
    pub state: State,
    pub node: Node,
}

impl<T> Linked for WaitNode<T> {
    open spec fn node(self) -> Node {
        self.node
    }

    open spec fn relink(self, node: Node) -> Self {
        WaitNode { node, ..self }
    }

    proof fn relink_gives(self, node: Node) {
    }

    fn get_node(&self) -> (node: Node) {
        self.node
    }

    fn set_node(self, node: Node) -> (linked: Self) {
        WaitNode { tag: self.tag, state: self.state, node }
    }
}

/// A node that was pushed on the queue of `head`.
pub open spec fn pushed<T>(node: WaitNode<T>, address: usize, head: usize) -> WaitNode<T> {
    WaitNode {
        tag: node.tag,
        state: if node.state == State::Uninit {
            State::Waiting
        } else {
            node.state
        },
        node: queue::pushed(
            Node {
                prev: if node.state == State::Uninit {
                    0
                } else {
                    node.node.prev
                },
                ..node.node
            },
            address,
            head,
        ),
    }
}

impl<T> WaitNode<T> {
    /// A node that is in no queue.
    pub fn new(tag: T) -> (node: Self)
        ensures
            node.tag == tag,
            node.state == State::Uninit,
            node.node == (Node { prev: 0, next: 0, tail: 0, flags: 0 }),
    {
        WaitNode { tag, state: State::Uninit, node: Node::new() }
    }

    /// Links the node at `address` in front of the queue of `head`. The address
    /// of the new head comes back, and with it whether the node needs an event.
    pub fn push<M: Memory<Self>>(memory: &mut M, address: usize, head: usize) -> (result: (usize, bool))
        requires
            old(memory).nodes().contains_key(address),
        ensures
            result.0 == address,
            result.1 == (old(memory).nodes()[address].state == State::Uninit),
            final(memory).nodes() == old(memory).nodes().insert(
                address,
                pushed(old(memory).nodes()[address], address, head),
            ),
    {
        let mut wait_node = memory.read(address);
        let is_new = match wait_node.state {
            State::Uninit => true,
            _ => false,
        };
        if is_new {
            wait_node.state = State::Waiting;
            wait_node.node.prev = 0;
        }
        wait_node.node.next = head;
        wait_node.node.tail = if head == 0 {
            address
        } else {
            0
        };
        memory.write(address, wait_node);
        (address, is_new)
    }

    /// Finds the node that was pushed first.
    pub fn tail<M: Memory<Self>>(memory: &mut M, head: usize) -> (tail: usize)
        requires
            head != 0,
            queue::has_queue(queue::links(old(memory).nodes()), head),
        ensures
            tail == queue::waiters(queue::links(old(memory).nodes()), head).last(),
            queue::is_queue(
                queue::links(final(memory).nodes()),
                head,
                queue::waiters(queue::links(old(memory).nodes()), head),
            ),
            queue::linked(
                queue::links(final(memory).nodes()),
                queue::waiters(queue::links(old(memory).nodes()), head),
            ),
            exists|known: int|
                queue::chained(
                    queue::links(old(memory).nodes()),
                    queue::waiters(queue::links(old(memory).nodes()), head),
                    known,
                ) && #[trigger] queue::searched(
                    old(memory).nodes(),
                    final(memory).nodes(),
                    queue::waiters(queue::links(old(memory).nodes()), head),
                    known,
                ),
    {
        find_linked_tail(memory, head)
    }

    /// The node that was pushed after the one at `tail`, or null.
    pub fn next<M: Memory<Self>>(memory: &M, tail: usize) -> (next: usize)
        requires
            memory.nodes().contains_key(tail),
        ensures
            next == memory.nodes()[tail].node.prev,
    {
        memory.read(tail).node.prev
    }

    /// Makes `new_tail`, unless it is null, the tail that the head remembers.
    pub fn pop<M: Memory<Self>>(memory: &mut M, head: usize, new_tail: usize)
        requires
            old(memory).nodes().contains_key(head),
        ensures
            final(memory).nodes() == (if new_tail == 0 {
                old(memory).nodes()
            } else {
                old(memory).nodes().insert(
                    head,
                    WaitNode {
                        node: queue::shortened(old(memory).nodes()[head].node, new_tail),
                        ..old(memory).nodes()[head]
                    },
                )
            }),
    {
        if new_tail != 0 {
            let mut wait_node = memory.read(head);
            wait_node.node.tail = new_tail;
            memory.write(head, wait_node);
        }
    }

    /// Makes the node ready to be pushed again once its thread was woken. Its
    /// event is to be reset too.
    pub fn reset<M: Memory<Self>>(memory: &mut M, address: usize)
        requires
            old(memory).nodes().contains_key(address),
        ensures
            final(memory).nodes() == old(memory).nodes().insert(
                address,
                WaitNode {
                    node: Node { prev: 0, ..old(memory).nodes()[address].node },
                    ..old(memory).nodes()[address]
                },
            ),
    {
        let mut wait_node = memory.read(address);
        wait_node.node.prev = 0;
        memory.write(address, wait_node);
    }

    /// Marks the node as notified. Its event is to be set then.
    pub fn notify<M: Memory<Self>>(memory: &mut M, address: usize)
        requires
            old(memory).nodes().contains_key(address),
        ensures
            final(memory).nodes() == old(memory).nodes().insert(
                address,
                WaitNode { state: State::Notified, ..old(memory).nodes()[address] },
            ),
    {
        let mut wait_node = memory.read(address);
        wait_node.state = State::Notified;
        memory.write(address, wait_node);
    }
}

/// Pushing a node that has no back link puts it in front of all others.
pub proof fn push_extends<T>(nodes: Map<usize, WaitNode<T>>, head: usize, address: usize)
    requires
        queue::has_queue(queue::links(nodes), head),
        address != 0,
        nodes.contains_key(address),
        !queue::waiters(queue::links(nodes), head).contains(address),
        nodes[address].state == State::Uninit || nodes[address].node.prev == 0,
    ensures
        ({
            let after = nodes.insert(address, pushed(nodes[address], address, head));
            queue::waiters(queue::links(after), address) == seq![address] + queue::waiters(
                queue::links(nodes),
                head,
            ) && queue::has_queue(queue::links(after), address)
        }),
{
    let before = queue::links(nodes);
    let after = nodes.insert(address, pushed(nodes[address], address, head));
    let queue = queue::waiters(before, head);
    let ready = before.insert(address, Node { prev: 0, ..before[address] });
    queue::queue_is_framed(before, ready, head, queue);
    queue::push_extends(ready, head, queue, address);
    assert(queue::links(after) =~= ready.insert(
        address,
        queue::pushed(ready[address], address, head),
    ));
    queue::waiters_of(queue::links(after), address, seq![address] + queue);
}

/// Taking the tail of a queue leaves the others, in their order.
pub proof fn pop_shortens<T>(nodes: Map<usize, WaitNode<T>>, head: usize, queue: Seq<usize>)
    requires
        head != 0,
        queue::is_queue(queue::links(nodes), head, queue),
        queue::linked(queue::links(nodes), queue),
        queue.len() > 1,
    ensures
        nodes[queue.last()].node.prev == queue[queue.len() - 2],
        ({
            let new_tail = queue[queue.len() - 2];
            let after = nodes.insert(
                head,
                WaitNode {
                    node: queue::shortened(nodes[head].node, new_tail),
                    ..nodes[head]
                },
            );
            queue::waiters(queue::links(after), head) == queue.drop_last() && queue::has_queue(
                queue::links(after),
                head,
            )
        }),
{
    let new_tail = queue[queue.len() - 2];
    let after = nodes.insert(
        head,
        WaitNode { node: queue::shortened(nodes[head].node, new_tail), ..nodes[head] },
    );
    queue::pop_shortens(queue::links(nodes), head, queue);
    assert(queue.contains(queue[0]));
    assert(queue::links(nodes)[queue[queue.len() - 1]].prev == new_tail);
    assert(nodes.contains_key(queue[queue.len() - 1]));
    assert(queue::links(after) =~= queue::links(nodes).insert(
        head,
        queue::shortened(queue::links(nodes)[head], new_tail),
    ));
    queue::waiters_of(queue::links(after), head, queue.drop_last());
}

} // verus!
