//! A mutex of one word that can hand itself over to a waiting thread.
use super::event::WAIT_NODE_INIT;
use crate::lock_word;
use crate::lock_word::{
    compare_exchange, release, Attempt, AttemptStep, Backoff, Dequeue, DequeueStep, MUTEX_LOCK, QUEUE_LOCK, QUEUE_MASK,
};
use crate::mutex;
use crate::queue;
use crate::queue::{find_tail, Memory, Node};
use vstd::prelude::*;

verus! {

/// The flag of a node to whose thread the lock was handed over.
pub const WAIT_NODE_HANDOFF: u8 = 2;

/// The node was made ready by its thread.
pub open spec fn is_ready(node: Node) -> bool {
    node.flags & WAIT_NODE_INIT != 0
}

/// The lock was handed over to the thread of the node.
pub open spec fn is_handed(node: Node) -> bool {
    node.flags & WAIT_NODE_HANDOFF != 0
}

/// The node with the lock handed over to its thread.
pub open spec fn handed(node: Node) -> Node {
    Node { flags: node.flags | WAIT_NODE_HANDOFF, ..node }
}

/// The node made ready by its thread.
pub open spec fn made_ready(node: Node) -> Node {
    Node { prev: 0, flags: node.flags | WAIT_NODE_INIT, ..node }
}

/// The two flags do not touch each other.
pub proof fn flag_fields(flags: u8)
    by (bit_vector)
    ensures
        (flags | WAIT_NODE_HANDOFF) & WAIT_NODE_HANDOFF != 0,
        (flags | WAIT_NODE_HANDOFF) & WAIT_NODE_INIT == flags & WAIT_NODE_INIT,
        (flags | WAIT_NODE_INIT) & WAIT_NODE_INIT != 0,
        (flags | WAIT_NODE_INIT) & WAIT_NODE_HANDOFF == flags & WAIT_NODE_HANDOFF,
{
}

/// A thread that hands the lock over, and then waits for it again or not.
#[derive(Clone, Copy, PartialEq, Eq, Debug, Structural)]
pub struct FairUnlock {
    /// The word as the thread has seen it last, or `None` if it must look.
    pub state: Option<usize>,
    /// The thread has the right to the queue.
    pub has_right: bool,
    /// The node under which the thread then waits behind all others, if it does.
    pub back: Option<usize>,
}

/// What came of one step of a fair release.
#[derive(Clone, Copy, PartialEq, Eq, Debug, Structural)]
pub enum FairStep {
    /// There is more to do.
    Continue,
    /// Nobody waits and the lock is free.
    Released,
    /// Nobody waits and the thread, which wants the lock again, has kept it.
    Kept,
    /// The thread of this node holds the lock and is to be woken.
    HandedOver(usize),
}

/// The nodes after the tail of `queue` was taken out and the lock handed over to
/// its thread.
pub open spec fn popped(nodes: Map<usize, Node>, queue: Seq<usize>) -> Map<usize, Node> {
    let shorter = if queue.len() > 1 {
        nodes.insert(queue[0], queue::shortened(nodes[queue[0]], queue[queue.len() - 2]))
    } else {
        nodes
    };
    shorter.insert(queue.last(), handed(shorter[queue.last()]))
}

/// The newest node of `queue` once its tail was taken out, or null.
pub open spec fn left_head(queue: Seq<usize>) -> usize {
    if queue.len() > 1 {
        queue[0]
    } else {
        0
    }
}

/// The node of a thread that waits behind all others of `queue` but its tail.
pub open spec fn behind(node: Node, address: usize, queue: Seq<usize>) -> Node {
    queue::pushed(Node { prev: 0, flags: WAIT_NODE_INIT, ..node }, address, left_head(queue))
}

/// The nodes after the lock was handed over to the tail of `queue`.
pub open spec fn fair_nodes(nodes: Map<usize, Node>, queue: Seq<usize>, back: Option<usize>) -> Map<usize, Node> {
    match back {
        None => popped(nodes, queue),
        Some(address) => popped(nodes, queue).insert(
            address,
            behind(popped(nodes, queue)[address], address, queue),
        ),
    }
}

/// The word after the lock was handed over to the tail of `queue`: it is held, and
/// the right to the queue is free.
pub open spec fn fair_word(state: usize, queue: Seq<usize>, back: Option<usize>) -> usize {
    match back {
        None => if queue.len() > 1 {
            lock_word::without_queue_lock(state)
        } else {
            lock_word::without_queue(state)
        },
        Some(address) => lock_word::with_head(lock_word::without_queue_lock(state), address),
    }
}

/// One step of a fair release on the word and the nodes.
pub open spec fn fair_steps(
    before: FairUnlock,
    after: FairUnlock,
    word: usize,
    new_word: usize,
    nodes: Map<usize, Node>,
    new_nodes: Map<usize, Node>,
    step: FairStep,
) -> bool {
    match before.state {
        None => {
            &&& step == FairStep::Continue
            &&& after == (FairUnlock { state: Some(word), ..before })
            &&& new_word == word
            &&& new_nodes == nodes
        },
        Some(state) => if !before.has_right {
            &&& new_nodes == nodes
            &&& if lock_word::head_of(state) == 0 && before.back is Some {
                step == FairStep::Kept && new_word == word && after == before
            } else if lock_word::head_of(state) == 0 && word == state {
                step == FairStep::Released && new_word == 0 && after == before
            } else {
                step == FairStep::Continue && asks_for_right(
                    before.state,
                    after.state,
                    after.has_right,
                    word,
                    new_word,
                ) && after.back == before.back
            }
        } else {
            let queue = queue::waiters(nodes, lock_word::head_of(state));
            exists|mid: Map<usize, Node>| #[trigger]
                queue::relinked(nodes, mid, queue) && queue::linked(mid, queue) && (if word == state {
                    &&& step == FairStep::HandedOver(queue.last())
                    &&& after == before
                    &&& new_word == fair_word(state, queue, before.back)
                    &&& new_nodes == fair_nodes(mid, queue, before.back)
                } else {
                    // Nodes have come in meanwhile.
                    &&& step == FairStep::Continue
                    &&& after == (FairUnlock { state: Some(word), ..before })
                    &&& new_word == word
                    &&& new_nodes == mid
                })
        },
    }
}

/// A thread asks for the right to the queue. While another has it, the thread looks
/// at the word again.
pub open spec fn asks_for_right(
    before: Option<usize>,
    after: Option<usize>,
    has_right: bool,
    word: usize,
    new_word: usize,
) -> bool {
    before matches Some(state) && if lock_word::head_of(state) == 0 {
        after == Some(word) && !has_right && new_word == word
    } else if lock_word::is_queue_locked(state) {
        after is None && !has_right && new_word == word
    } else if word == state {
        after == Some(new_word) && has_right && new_word == lock_word::with_queue_lock(state)
    } else {
        after == Some(word) && !has_right && new_word == word
    }
}

/// A task that leaves the queue because it no longer wants the lock.
#[derive(Clone, Copy, PartialEq, Eq, Debug, Structural)]
pub struct Removal {
    /// The word as the thread has seen it last, or `None` if it must look.
    pub state: Option<usize>,
    /// The thread has the right to the queue.
    pub has_right: bool,
    /// The node that is to leave.
    pub node: usize,
}

/// What came of one step towards leaving the queue.
#[derive(Clone, Copy, PartialEq, Eq, Debug, Structural)]
pub enum RemoveStep {
    /// There is more to do.
    Continue,
    /// The node has left the queue.
    Removed,
    /// The node is not in the queue.
    Absent,
}

/// The nodes after the one at `address` has left the linked `queue`.
pub open spec fn removed_nodes(nodes: Map<usize, Node>, queue: Seq<usize>, address: usize) -> Map<usize, Node> {
    let k = queue.index_of(address);
    if queue.len() == 1 {
        nodes
    } else if k == queue.len() - 1 {
        nodes.insert(queue[0], queue::shortened(nodes[queue[0]], queue[k - 1]))
    } else if k == 0 {
        nodes.insert(queue[1], Node { prev: 0, tail: queue.last(), ..nodes[queue[1]] })
    } else {
        nodes.insert(queue[k + 1], Node { prev: queue[k - 1], ..nodes[queue[k + 1]] })
    }
}

/// The word after the node at `address` has left `queue` and the right to the queue
/// is free.
pub open spec fn removed_word(state: usize, queue: Seq<usize>, address: usize) -> usize {
    if queue.len() == 1 {
        lock_word::without_queue(state)
    } else if queue[0] == address {
        lock_word::with_head(lock_word::without_queue_lock(state), queue[1])
    } else {
        lock_word::without_queue_lock(state)
    }
}

/// One step of a task that leaves the queue.
pub open spec fn removal_steps(
    before: Removal,
    after: Removal,
    word: usize,
    new_word: usize,
    nodes: Map<usize, Node>,
    new_nodes: Map<usize, Node>,
    step: RemoveStep,
) -> bool {
    match before.state {
        None => {
            &&& step == RemoveStep::Continue
            &&& after == (Removal { state: Some(word), ..before })
            &&& new_word == word
            &&& new_nodes == nodes
        },
        Some(state) => if !before.has_right {
            &&& new_nodes == nodes
            &&& if lock_word::head_of(state) == 0 {
                step == RemoveStep::Absent && new_word == word && after == before
            } else {
                step == RemoveStep::Continue && asks_for_right(
                    before.state,
                    after.state,
                    after.has_right,
                    word,
                    new_word,
                ) && after.node == before.node
            }
        } else {
            let queue = queue::waiters(nodes, lock_word::head_of(state));
            exists|mid: Map<usize, Node>| #[trigger]
                queue::relinked(nodes, mid, queue) && queue::linked(mid, queue) && (if word != state {
                    &&& step == RemoveStep::Continue
                    &&& after == (Removal { state: Some(word), ..before })
                    &&& new_word == word
                    &&& new_nodes == mid
                } else if queue.contains(before.node) {
                    &&& step == RemoveStep::Removed
                    &&& after == before
                    &&& new_word == removed_word(state, queue, before.node)
                    &&& new_nodes == removed_nodes(mid, queue, before.node)
                } else {
                    &&& step == RemoveStep::Absent
                    &&& after == before
                    &&& new_word == lock_word::without_queue_lock(state)
                    &&& new_nodes == mid
                })
        },
    }
}

impl FairUnlock {
    /// The thread may take a step: while it has the right to the queue, what it has
    /// seen leads to a queue, in which its own node is not.
    pub open spec fn ready(self, nodes: Map<usize, Node>) -> bool {
        &&& self.back matches Some(address) ==> lock_word::is_address(address) && nodes.contains_key(
            address,
        )
        &&& self.has_right ==> (self.state matches Some(state) ==> {
            &&& lock_word::head_of(state) != 0
            &&& queue::has_queue(nodes, lock_word::head_of(state))
            &&& self.back matches Some(address) ==> !queue::waiters(
                nodes,
                lock_word::head_of(state),
            ).contains(address)
        })
    }

    /// A thread that hands the lock over.
    pub fn new() -> (unlock: Self)
        ensures
            unlock == (FairUnlock { state: None, has_right: false, back: None }),
    {
        FairUnlock { state: None, has_right: false, back: None }
    }

    /// A thread that hands the lock over and then waits for it again, with its node
    /// at `address`.
    pub fn bumping(address: usize) -> (unlock: Self)
        ensures
            unlock == (FairUnlock { state: None, has_right: false, back: Some(address) }),
    {
        FairUnlock { state: None, has_right: false, back: Some(address) }
    }
}

impl Removal {
    /// The thread may take a step: while it has the right to the queue, what it has
    /// seen leads to a queue of nodes with room for the flags in their addresses.
    pub open spec fn ready(self, nodes: Map<usize, Node>) -> bool {
        self.has_right ==> (self.state matches Some(state) ==> {
            let queue = queue::waiters(nodes, lock_word::head_of(state));
            &&& lock_word::head_of(state) != 0
            &&& queue::has_queue(nodes, lock_word::head_of(state))
            &&& forall|i: int| 0 <= i < queue.len() ==> lock_word::is_address(#[trigger] queue[i])
        })
    }

    /// A task that leaves the queue, with its node at `address`.
    pub fn new(address: usize) -> (removal: Self)
        ensures
            removal == (Removal { state: None, has_right: false, node: address }),
    {
        Removal { state: None, has_right: false, node: address }
    }
}

/// Asks for the right to the queue of the word. What the thread has seen then comes
/// back, or `None` if it must look, and whether it has the right.
fn ask_for_right(word: &mut usize, state: usize) -> (result: (Option<usize>, bool))
    ensures
        asks_for_right(Some(state), result.0, result.1, *old(word), *final(word)),
{
    if state & QUEUE_MASK == 0 {
        (Some(*word), false)
    } else if state & QUEUE_LOCK != 0 {
        (None, false)
    } else {
        match compare_exchange(word, state, state | QUEUE_LOCK) {
            Ok(_) => (Some(state | QUEUE_LOCK), true),
            Err(seen) => (Some(seen), false),
        }
    }
}

/// A word-sized mutex. Each method is one atomic step on the word.
#[derive(Clone, Copy, PartialEq, Eq, Debug, Structural)]
pub struct WordLock {
    pub state: usize,
}

impl WordLock {
    /// A free lock.
    pub fn new() -> (lock: Self)
        ensures
            lock.state == 0,
    {
        WordLock { state: 0 }
    }

    /// Takes the lock if it is free and nobody waits for it.
    pub fn try_lock(&mut self) -> (acquired: bool)
        ensures
            acquired == (old(self).state == 0),
            final(self).state == (if acquired {
                MUTEX_LOCK
            } else {
                old(self).state
            }),
    {
        if self.state == 0 {
            self.state = MUTEX_LOCK;
            true
        } else {
            false
        }
    }

    /// Takes the lock if it was handed over to the node at `address`, or if it is
    /// free and nobody waits for it. Otherwise an attempt comes back, with which
    /// the thread goes on in `lock_slow`. A thread whose node was made ready
    /// before does not enqueue it again.
    pub fn lock<M: Memory<Node>>(
        &mut self,
        max_spin_doubling: usize,
        memory: &M,
        address: usize,
    ) -> (attempt: Option<Attempt>)
        requires
            memory.nodes().contains_key(address),
        ensures
            attempt is None <==> is_handed(memory.nodes()[address]) || old(self).state == 0,
            final(self).state == (if !is_handed(memory.nodes()[address]) && old(self).state == 0 {
                MUTEX_LOCK
            } else {
                old(self).state
            }),
            attempt matches Some(attempt) ==> attempt == (Attempt {
                state: None,
                spin: 0,
                refused: false,
                node: if is_ready(memory.nodes()[address]) {
                    Some(address)
                } else {
                    None
                },
                queued: is_ready(memory.nodes()[address]),
                backoff: Backoff::Double(max_spin_doubling),
            }),
    {
        let flags: u8 = memory.read(address).flags;
        if flags & WAIT_NODE_HANDOFF != 0 || self.try_lock() {
            return None;
        }
        let mut attempt = Attempt::new(Backoff::Double(max_spin_doubling));
        if flags & WAIT_NODE_INIT != 0 {
            attempt.set_node(address);
            attempt.queued = true;
        }
        Some(attempt)
    }

    /// Makes the node at `address` ready, once an attempt needs it.
    pub fn init_node<M: Memory<Node>>(attempt: &mut Attempt, memory: &mut M, address: usize)
        requires
            old(memory).nodes().contains_key(address),
        ensures
            *final(attempt) == (Attempt { node: Some(address), ..*old(attempt) }),
            final(memory).nodes() == old(memory).nodes().insert(
                address,
                made_ready(old(memory).nodes()[address]),
            ),
    {
        let node = memory.read(address);
        memory.write(
            address,
            Node {
                prev: 0,
                next: node.next,
                tail: node.tail,
                flags: node.flags | WAIT_NODE_INIT,
            },
        );
        attempt.set_node(address);
    }

    /// Takes one step towards the lock.
    pub fn lock_slow<M: Memory<Node>>(&mut self, attempt: &mut Attempt, memory: &mut M) -> (step: AttemptStep)
        requires
            old(attempt).ready(old(memory).nodes()),
        ensures
            lock_word::attempt_steps(
                *old(attempt),
                *final(attempt),
                old(self).state,
                final(self).state,
                old(memory).nodes(),
                final(memory).nodes(),
                step,
            ),
    {
        attempt.step(&mut self.state, memory)
    }

    /// Releases the lock. If there is a node to wake, the thread goes on in
    /// `unlock_unfair_slow` with the value that comes back.
    pub fn unlock_unfair(&mut self) -> (dequeue: Option<Dequeue>)
        requires
            lock_word::is_locked(old(self).state),
        ensures
            final(self).state == lock_word::without_lock(old(self).state),
            dequeue is Some <==> lock_word::head_of(old(self).state) != 0
                && !lock_word::is_queue_locked(old(self).state),
            dequeue matches Some(d) ==> d == mutex::dequeue_start(),
    {
        if release(&mut self.state) {
            Some(Dequeue::new(false))
        } else {
            None
        }
    }

    /// Takes one step towards waking the first waiting thread.
    pub fn unlock_unfair_slow<M: Memory<Node>>(
        &mut self,
        dequeue: &mut Dequeue,
        memory: &mut M,
    ) -> (step: DequeueStep)
        requires
            old(dequeue).ready(old(memory).nodes()),
        ensures
            lock_word::dequeue_steps(
                *old(dequeue),
                *final(dequeue),
                old(self).state,
                final(self).state,
                old(memory).nodes(),
                final(memory).nodes(),
                step,
            ),
    {
        dequeue.step(&mut self.state, memory)
    }

    /// Takes one step of a release that hands the lock over to the first waiting
    /// thread, if there is one.
    pub fn unlock_fair<M: Memory<Node>>(&mut self, unlock: &mut FairUnlock, memory: &mut M) -> (step: FairStep)
        requires
            old(unlock).ready(old(memory).nodes()),
            old(unlock).back is None,
        ensures
            fair_steps(
                *old(unlock),
                *final(unlock),
                old(self).state,
                final(self).state,
                old(memory).nodes(),
                final(memory).nodes(),
                step,
            ),
    {
        self.hand_over(unlock, memory)
    }

    /// Takes one step of a thread that hands the lock over to the first waiting
    /// thread and then waits behind all others. If nobody waits, it keeps the lock.
    pub fn bump<M: Memory<Node>>(&mut self, unlock: &mut FairUnlock, memory: &mut M) -> (step: FairStep)
        requires
            old(unlock).ready(old(memory).nodes()),
            old(unlock).back is Some,
        ensures
            fair_steps(
                *old(unlock),
                *final(unlock),
                old(self).state,
                final(self).state,
                old(memory).nodes(),
                final(memory).nodes(),
                step,
            ),
    {
        self.hand_over(unlock, memory)
    }

    fn hand_over<M: Memory<Node>>(&mut self, unlock: &mut FairUnlock, memory: &mut M) -> (step: FairStep)
        requires
            old(unlock).ready(old(memory).nodes()),
        ensures
            fair_steps(
                *old(unlock),
                *final(unlock),
                old(self).state,
                final(self).state,
                old(memory).nodes(),
                final(memory).nodes(),
                step,
            ),
    {
        let state: usize = match unlock.state {
            None => {
                unlock.state = Some(self.state);
                return FairStep::Continue;
            },
            Some(state) => state,
        };
        let head: usize = state & QUEUE_MASK;
        if !unlock.has_right {
            if head == 0 {
                if unlock.back.is_some() {
                    return FairStep::Kept;
                }
                if self.state == state {
                    self.state = 0;
                    return FairStep::Released;
                }
            }
            let (seen, has_right) = ask_for_right(&mut self.state, state);
            unlock.state = seen;
            unlock.has_right = has_right;
            return FairStep::Continue;
        }
        let ghost nodes = memory.nodes();
        let ghost queue = queue::waiters(nodes, head);
        let tail = find_tail(memory, head);
        let ghost mid = memory.nodes();
        proof {
            assert(queue::relinked(nodes, mid, queue));
            queue::lone_tail(mid, head, queue);
            assert(queue.contains(queue[0]) && queue.contains(queue[queue.len() - 1]));
            if queue.len() > 1 {
                queue::pop_shortens(mid, head, queue);
                assert(queue[queue.len() - 2] != 0);
            }
        }
        if self.state != state {
            // Nodes have come in meanwhile.
            unlock.state = Some(self.state);
            return FairStep::Continue;
        }
        // The tail leaves the queue and holds the lock.
        let new_tail: usize = memory.read(tail).prev;
        if new_tail != 0 {
            let first = memory.read(head);
            memory.write(
                head,
                Node { prev: first.prev, next: first.next, tail: new_tail, flags: first.flags },
            );
        }
        let last = memory.read(tail);
        memory.write(
            tail,
            Node {
                prev: last.prev,
                next: last.next,
                tail: last.tail,
                flags: last.flags | WAIT_NODE_HANDOFF,
            },
        );
        assert(memory.nodes() =~= popped(mid, queue));
        match unlock.back {
            None => {
                self.state = if new_tail != 0 {
                    state & !QUEUE_LOCK
                } else {
                    state & MUTEX_LOCK
                };
            },
            Some(address) => {
                let (next, end): (usize, usize) = if new_tail != 0 {
                    (head, 0)
                } else {
                    (0, address)
                };
                memory.write(address, Node { prev: 0, next, tail: end, flags: WAIT_NODE_INIT });
                assert(memory.nodes() =~= fair_nodes(mid, queue, Some(address)));
                self.state = address | ((state & !QUEUE_LOCK) & !QUEUE_MASK);
            },
        }
        FairStep::HandedOver(tail)
    }

    /// Takes one step of a task that leaves the queue. The others stay in it, in
    /// their order. As another thread may have left the waking to this one meanwhile,
    /// it goes on in `unlock_unfair_slow` once it is through.
    pub fn remove_waiter<M: Memory<Node>>(&mut self, removal: &mut Removal, memory: &mut M) -> (step:
        RemoveStep)
        requires
            old(removal).ready(old(memory).nodes()),
        ensures
            removal_steps(
                *old(removal),
                *final(removal),
                old(self).state,
                final(self).state,
                old(memory).nodes(),
                final(memory).nodes(),
                step,
            ),
            old(removal).has_right && step is Removed ==> ({
                let queue = queue::waiters(old(memory).nodes(), lock_word::head_of(old(self).state));
                queue::waiters(final(memory).nodes(), lock_word::head_of(final(self).state))
                    == queue.remove(queue.index_of(old(removal).node))
            }),
    {
        let state: usize = match removal.state {
            None => {
                removal.state = Some(self.state);
                return RemoveStep::Continue;
            },
            Some(state) => state,
        };
        let head: usize = state & QUEUE_MASK;
        if !removal.has_right {
            if head == 0 {
                return RemoveStep::Absent;
            }
            let (seen, has_right) = ask_for_right(&mut self.state, state);
            removal.state = seen;
            removal.has_right = has_right;
            return RemoveStep::Continue;
        }
        let ghost nodes = memory.nodes();
        let ghost queue = queue::waiters(nodes, head);
        let tail = find_tail(memory, head);
        let ghost mid = memory.nodes();
        proof {
            assert(queue::relinked(nodes, mid, queue));
        }
        if self.state != state {
            removal.state = Some(self.state);
            return RemoveStep::Continue;
        }
        let address = removal.node;
        let ghost last = queue.len() - 1;
        // Look for the node from the one that waits longest on.
        let mut current: usize = tail;
        let mut after: usize = 0;
        let ghost mut j: int = last;
        while current != address && current != head
            invariant
                memory.nodes() == mid,
                queue.len() > 0,
                head == queue[0],
                last == queue.len() - 1,
                queue::is_queue(mid, head, queue),
                queue::linked(mid, queue),
                0 <= j <= last,
                current == queue[j],
                after == (if j == last {
                    0
                } else {
                    queue[j + 1]
                }),
                forall|i: int| j < i < queue.len() ==> #[trigger] queue[i] != address,
            decreases j,
        {
            assert(j > 0);
            assert(mid[queue[j]].prev == queue[j - 1]);
            after = current;
            current = memory.read(current).prev;
            proof {
                j = j - 1;
            }
        }
        if current != address {
            assert(j == 0) by {
                assert(queue[j] == queue[0]);
            }
            assert(!queue.contains(address)) by {
                if queue.contains(address) {
                    let i = choose|i: int| 0 <= i < queue.len() && queue[i] == address;
                    assert(i > 0);
                }
            }
            self.state = state & !QUEUE_LOCK;
            return RemoveStep::Absent;
        }
        proof {
            assert(queue.contains(address));
            assert(queue[queue.index_of(address)] == queue[j]);
            assert(queue.index_of(address) == j);
            removal_keeps_order(mid, state, queue, address);
            if j < last {
                assert(queue[j + 1] != 0);
            }
            if j > 0 {
                assert(mid[queue[j]].prev == queue[j - 1]);
            }
        }
        let prev: usize = memory.read(address).prev;
        if after == 0 {
            if address == head {
                assert(queue.len() == 1) by {
                    assert(queue[j] == queue[0]);
                }
                self.state = state & MUTEX_LOCK;
            } else {
                let first = memory.read(head);
                memory.write(
                    head,
                    Node { prev: first.prev, next: first.next, tail: prev, flags: first.flags },
                );
                self.state = state & !QUEUE_LOCK;
            }
        } else {
            let node = memory.read(after);
            if address == head {
                assert(j == 0) by {
                    assert(queue[j] == queue[0]);
                }
                memory.write(after, Node { prev: 0, next: node.next, tail, flags: node.flags });
                self.state = after | ((state & !QUEUE_LOCK) & !QUEUE_MASK);
            } else {
                memory.write(
                    after,
                    Node { prev, next: node.next, tail: node.tail, flags: node.flags },
                );
                self.state = state & !QUEUE_LOCK;
            }
        }
        assert(memory.nodes() =~= removed_nodes(mid, queue, address));
        RemoveStep::Removed
    }
}

/// A node that leaves a linked queue leaves the others in their order.
pub proof fn removal_keeps_order(nodes: Map<usize, Node>, state: usize, queue: Seq<usize>, address: usize)
    requires
        lock_word::head_of(state) != 0,
        queue::is_queue(nodes, lock_word::head_of(state), queue),
        queue::linked(nodes, queue),
        queue.contains(address),
        forall|i: int| 0 <= i < queue.len() ==> lock_word::is_address(#[trigger] queue[i]),
    ensures
        ({
            let word = removed_word(state, queue, address);
            let left = queue.remove(queue.index_of(address));
            &&& queue::is_queue(
                removed_nodes(nodes, queue, address),
                lock_word::head_of(word),
                left,
            )
            &&& queue::waiters(removed_nodes(nodes, queue, address), lock_word::head_of(word)) == left
            &&& lock_word::is_locked(word) == lock_word::is_locked(state)
            &&& !lock_word::is_queue_locked(word)
        }),
{
    let k = queue.index_of(address);
    let head = lock_word::head_of(state);
    let left = queue.remove(k);
    let after = removed_nodes(nodes, queue, address);
    let word = removed_word(state, queue, address);
    assert(queue[k] == address);
    lock_word::word_fields(state, 0);
    lock_word::word_fields(
        lock_word::without_queue_lock(state),
        if queue.len() > 1 {
            queue[1]
        } else {
            head
        },
    );
    if queue.len() == 1 {
        assert(left =~= Seq::<usize>::empty());
        queue::waiters_of(after, 0, left);
    } else {
        assert(k == 0 <==> queue[0] == address);
        assert(forall|i: int| 0 <= i < k ==> left[i] == queue[i]);
        assert(forall|i: int| k <= i < left.len() ==> left[i] == queue[i + 1]);
        let new_head = left[0];
        assert(lock_word::head_of(word) == new_head);
        assert forall|i: int| 0 <= i < left.len() implies (#[trigger] left[i]) != 0 && after.contains_key(
            left[i],
        ) by {
            if i < k {
                assert(left[i] == queue[i]);
            } else {
                assert(left[i] == queue[i + 1]);
            }
        }
        assert forall|i: int, j: int| 0 <= i < left.len() && 0 <= j < left.len() && i != j implies left[i]
            != left[j] by {
            let a = if i < k {
                i
            } else {
                i + 1
            };
            let b = if j < k {
                j
            } else {
                j + 1
            };
            assert(left[i] == queue[a] && left[j] == queue[b]);
        }
        assert forall|i: int| 0 < i < left.len() implies (#[trigger] after[left[i]]).prev == left[i - 1] by {
            let a = if i < k {
                i
            } else {
                i + 1
            };
            assert(left[i] == queue[a]);
            assert(nodes[queue[a]].prev == queue[a - 1]);
            if i == k {
                assert(left[i - 1] == queue[k - 1]);
            } else if k + 1 < queue.len() {
                assert(a != k + 1);
                assert(queue[a] != queue[k + 1]);
            }
            assert(queue[a] != queue[0]);
        }
        assert(after[new_head].prev == 0);
        assert(after[new_head].tail == left.last()) by {
            if k == queue.len() - 1 {
                assert(left.last() == queue[k - 1]);
            } else {
                assert(left.last() == queue.last());
                if k > 0 {
                    assert(queue[k + 1] != queue[0]);
                }
            }
        }
        assert(queue::chained(after, left, 0));
        queue::waiters_of(after, new_head, left);
    }
}

/// Handing the lock over leaves the others in the queue, in their order, and a thread
/// that wants the lock again behind all of them.
pub proof fn hand_over_keeps_order(
    nodes: Map<usize, Node>,
    state: usize,
    queue: Seq<usize>,
    back: Option<usize>,
)
    requires
        lock_word::head_of(state) != 0,
        queue::is_queue(nodes, lock_word::head_of(state), queue),
        queue::linked(nodes, queue),
        back matches Some(address) ==> lock_word::is_address(address) && nodes.contains_key(address)
            && !queue.contains(address),
    ensures
        ({
            let word = fair_word(state, queue, back);
            let left = match back {
                None => queue.drop_last(),
                Some(address) => seq![address] + queue.drop_last(),
            };
            &&& queue::is_queue(fair_nodes(nodes, queue, back), lock_word::head_of(word), left)
            &&& queue::waiters(fair_nodes(nodes, queue, back), lock_word::head_of(word)) == left
            &&& is_handed(fair_nodes(nodes, queue, back)[queue.last()])
            &&& lock_word::is_locked(word) == lock_word::is_locked(state)
            &&& !lock_word::is_queue_locked(word)
        }),
{
    let head = lock_word::head_of(state);
    let last = queue.last();
    let left = queue.drop_last();
    let after = popped(nodes, queue);
    let kept_head = left_head(queue);
    lock_word::word_fields(state, 0);
    if let Some(address) = back {
        lock_word::word_fields(lock_word::without_queue_lock(state), address);
    }
    assert(queue.contains(queue[0]) && queue.contains(queue[queue.len() - 1]));
    assert forall|a: usize| left.contains(a) implies a != last && #[trigger] nodes.contains_key(a)
        && queue.contains(a) by {
        let i = choose|i: int| 0 <= i < left.len() && left[i] == a;
        assert(queue[i] == a && queue[i] != queue[queue.len() - 1]);
    }
    let shorter = if queue.len() > 1 {
        nodes.insert(queue[0], queue::shortened(nodes[queue[0]], queue[queue.len() - 2]))
    } else {
        nodes
    };
    if queue.len() > 1 {
        queue::pop_shortens(nodes, head, queue);
    } else {
        assert(left =~= Seq::<usize>::empty());
    }
    assert(queue::is_queue(shorter, kept_head, left));
    queue::queue_is_framed(shorter, after, kept_head, left);
    flag_fields(shorter[last].flags);
    match back {
        None => {
            queue::waiters_of(after, kept_head, left);
        },
        Some(address) => {
            let fresh = after.insert(
                address,
                Node { prev: 0, flags: WAIT_NODE_INIT, ..after[address] },
            );
            queue::queue_is_framed(after, fresh, kept_head, left);
            queue::push_extends(fresh, kept_head, left, address);
            let pushed = fresh.insert(address, queue::pushed(fresh[address], address, kept_head));
            assert(pushed =~= fair_nodes(nodes, queue, back));
            queue::waiters_of(pushed, address, seq![address] + left);
        },
    }
}

/// A fair release that hands the lock over leaves it held, tells the thread that
/// waited longest, and leaves the others in the queue, in their order.
pub proof fn fair_release_hands_over(
    before: FairUnlock,
    after: FairUnlock,
    word: usize,
    new_word: usize,
    nodes: Map<usize, Node>,
    new_nodes: Map<usize, Node>,
    node: usize,
)
    requires
        before.ready(nodes),
        before.back is None,
        lock_word::is_locked(word),
        fair_steps(before, after, word, new_word, nodes, new_nodes, FairStep::HandedOver(node)),
    ensures
        lock_word::is_locked(new_word),
        is_handed(new_nodes[node]),
        queue::waiters(nodes, lock_word::head_of(word)).len() > 0,
        node == queue::waiters(nodes, lock_word::head_of(word)).last(),
        queue::waiters(new_nodes, lock_word::head_of(new_word)) == queue::waiters(
            nodes,
            lock_word::head_of(word),
        ).drop_last(),
{
    let head = lock_word::head_of(word);
    let queue = queue::waiters(nodes, head);
    let mid = choose|mid: Map<usize, Node>| #[trigger]
        queue::relinked(nodes, mid, queue) && queue::linked(mid, queue) && new_nodes == fair_nodes(
            mid,
            queue,
            None,
        );
    queue::relinked_is_queue(nodes, mid, head, queue);
    hand_over_keeps_order(mid, word, queue, None);
}

/// Bumping is a fair release after which the thread waits for the lock again: it makes
/// of the word and of the queue what a fair release by the holder and then an enqueueing
/// of its node make of them, and it lets the same thread have the lock.
pub proof fn bump_is_fair_release_and_lock(
    release: FairUnlock,
    released: FairUnlock,
    word: usize,
    mid_word: usize,
    nodes: Map<usize, Node>,
    mid_nodes: Map<usize, Node>,
    node: usize,
    attempt: Attempt,
    waiting: Attempt,
    locked_word: usize,
    locked_nodes: Map<usize, Node>,
    bump: FairUnlock,
    bumped: FairUnlock,
    new_word: usize,
    new_nodes: Map<usize, Node>,
    step: FairStep,
)
    requires
        lock_word::is_locked(word),
        // The holder releases the lock fairly.
        release.ready(nodes),
        release.back is None,
        fair_steps(
            release,
            released,
            word,
            mid_word,
            nodes,
            mid_nodes,
            FairStep::HandedOver(node),
        ),
        // Then it waits for the lock.
        attempt.node is Some,
        attempt.ready(mid_nodes),
        !attempt.queued,
        attempt.state == Some(mid_word),
        mid_nodes[attempt.node->0].prev == 0,
        !queue::waiters(nodes, lock_word::head_of(word)).contains(attempt.node->0),
        lock_word::attempt_steps(
            attempt,
            waiting,
            mid_word,
            locked_word,
            mid_nodes,
            locked_nodes,
            AttemptStep::Wait,
        ),
        // Or it bumps instead.
        bump.ready(nodes),
        bump.has_right,
        bump.back == attempt.node,
        bump.state == Some(word),
        fair_steps(bump, bumped, word, new_word, nodes, new_nodes, step),
    ensures
        step == FairStep::HandedOver(node),
        is_handed(new_nodes[node]),
        new_word == locked_word,
        lock_word::is_locked(new_word),
        queue::waiters(new_nodes, lock_word::head_of(new_word)) == queue::waiters(
            locked_nodes,
            lock_word::head_of(locked_word),
        ),
        queue::waiters(new_nodes, lock_word::head_of(new_word)) == seq![attempt.node->0]
            + queue::waiters(nodes, lock_word::head_of(word)).drop_last(),
{
    let head = lock_word::head_of(word);
    let queue = queue::waiters(nodes, head);
    let address = attempt.node->0;
    let left = queue.drop_last();
    // The fair release.
    let mid = choose|mid: Map<usize, Node>| #[trigger]
        queue::relinked(nodes, mid, queue) && queue::linked(mid, queue) && mid_nodes == fair_nodes(
            mid,
            queue,
            None,
        );
    queue::relinked_is_queue(nodes, mid, head, queue);
    hand_over_keeps_order(mid, word, queue, None);
    assert(!left.contains(address)) by {
        if left.contains(address) {
            let i = choose|i: int| 0 <= i < left.len() && left[i] == address;
            assert(queue[i] == address);
        }
    }
    lock_word::word_fields(word, address);
    lock_word::word_fields(mid_word, address);
    queue::push_extends(mid_nodes, lock_word::head_of(mid_word), left, address);
    queue::waiters_of(locked_nodes, address, seq![address] + left);
    // The bump.
    let other = choose|other: Map<usize, Node>| #[trigger]
        queue::relinked(nodes, other, queue) && queue::linked(other, queue) && new_nodes == fair_nodes(
            other,
            queue,
            Some(address),
        );
    queue::relinked_is_queue(nodes, other, head, queue);
    hand_over_keeps_order(other, word, queue, Some(address));
    same_flags(word, mid_word, address);
}

/// The new head alone and the flags make up a word.
pub proof fn same_flags(word: usize, mid_word: usize, address: usize)
    by (bit_vector)
    requires
        word & MUTEX_LOCK != 0,
        mid_word == word & !QUEUE_LOCK || mid_word == word & MUTEX_LOCK,
    ensures
        address | (mid_word & !QUEUE_MASK) == address | ((word & !QUEUE_LOCK) & !QUEUE_MASK),
{
}

} // verus!
