//! Intrusive wait queues.
//!
//! A lock word holds the address of the node that was pushed last, the head of
//! its wait queue. The node that was pushed first, the tail, is the one to be
//! woken next. A node is pushed with a single write of the lock word, so it
//! only knows the node pushed before it. The thread that removes nodes
//! completes the back links and remembers the tail in the head.
use vstd::prelude::*;

verus! {

/// The fields of a waiting node that the queue and the lock words use.
/// Links are addresses, and address zero is the null link.
#[derive(Clone, Copy, PartialEq, Eq, Debug, Structural)]
pub struct Node {
    /// The node that was pushed after this one.
    pub prev: usize,
    /// The node that was pushed before this one.
    pub next: usize,
    /// The tail of the queue, where it is known, and null elsewhere.
    pub tail: usize,
    /// What the waking thread tells the waiting one.
    pub flags: u8,
}

impl Node {
    /// A node that is in no queue.
    pub fn new() -> (node: Self)
        ensures
            node == (Node { prev: 0, next: 0, tail: 0, flags: 0 }),
    {
        Node { prev: 0, next: 0, tail: 0, flags: 0 }
    }
}

/// The memory in which waiting nodes live.
pub trait Memory<N>: Sized {
    /// The nodes by their addresses. There are none unless a kind of memory tells
    /// which.
    open spec fn nodes(&self) -> Map<usize, N> {
        Map::empty()
    }

    /// Reads the node at an address.
    fn read(&self, address: usize) -> (node: N)
        requires
            self.nodes().contains_key(address),
        ensures
            node == self.nodes()[address],
    ;

    /// Replaces the node at an address.
    fn write(&mut self, address: usize, node: N)
        requires
            old(self).nodes().contains_key(address),
        ensures
            final(self).nodes() == old(self).nodes().insert(address, node),
    ;
}

/// The queue is linked by `next` from the head to position `known`, which
/// remembers the tail, and by `prev` from the tail back to that position.
pub open spec fn chained(nodes: Map<usize, Node>, queue: Seq<usize>, known: int) -> bool {
    &&& 0 <= known < queue.len()
    &&& nodes[queue[known]].tail == queue.last()
    &&& forall|i: int|
        0 <= i < known ==> (#[trigger] nodes[queue[i]]).tail == 0 && nodes[queue[i]].next
            == queue[i + 1]
    &&& forall|i: int|
        known < i < queue.len() ==> (#[trigger] nodes[queue[i]]).prev == queue[i - 1]
}

/// The addresses of `queue` are distinct nodes of the memory.
pub open spec fn proper(nodes: Map<usize, Node>, queue: Seq<usize>) -> bool {
    &&& queue.no_duplicates()
    &&& forall|i: int|
        0 <= i < queue.len() ==> (#[trigger] queue[i]) != 0 && nodes.contains_key(queue[i])
}

/// `head` leads to exactly the nodes of `queue`, from the one pushed last to
/// the one pushed first.
pub open spec fn is_queue(nodes: Map<usize, Node>, head: usize, queue: Seq<usize>) -> bool {
    if head == 0 {
        queue.len() == 0
    } else {
        &&& queue.len() > 0
        &&& queue[0] == head
        &&& proper(nodes, queue)
        &&& nodes[head].prev == 0
        &&& exists|known: int| chained(nodes, queue, known)
    }
}

/// `head` leads to a queue.
pub open spec fn has_queue(nodes: Map<usize, Node>, head: usize) -> bool {
    exists|queue: Seq<usize>| is_queue(nodes, head, queue)
}

/// The nodes that `head` leads to, from the one pushed last to the one pushed
/// first.
pub open spec fn waiters(nodes: Map<usize, Node>, head: usize) -> Seq<usize> {
    choose|queue: Seq<usize>| is_queue(nodes, head, queue)
}

/// The head remembers the tail and every back link is in place.
pub open spec fn linked(nodes: Map<usize, Node>, queue: Seq<usize>) -> bool {
    chained(nodes, queue, 0)
}

/// A node that is about to be pushed on the queue of `head`.
pub open spec fn pushed(node: Node, address: usize, head: usize) -> Node {
    Node {
        prev: node.prev,
        next: head,
        tail: if head == 0 {
            address
        } else {
            0
        },
        flags: node.flags,
    }
}

/// Only the back links of `queue` and the tail of its head may differ.
pub open spec fn relinked(before: Map<usize, Node>, after: Map<usize, Node>, queue: Seq<usize>) -> bool {
    &&& after.dom() =~= before.dom()
    &&& forall|a: usize| !queue.contains(a) ==> #[trigger] after[a] == before[a]
    &&& forall|a: usize|
        (#[trigger] after[a]).next == before[a].next && after[a].flags == before[a].flags
    &&& forall|a: usize| a != queue[0] ==> (#[trigger] after[a]).tail == before[a].tail
    &&& after[queue[0]].prev == before[queue[0]].prev
}

proof fn lemma_same_front(nodes: Map<usize, Node>, head: usize, q1: Seq<usize>, q2: Seq<usize>, j1: int, j2: int, i: int)
    requires
        head != 0,
        is_queue(nodes, head, q1),
        is_queue(nodes, head, q2),
        chained(nodes, q1, j1),
        chained(nodes, q2, j2),
        0 <= i <= j1,
        i <= j2,
    ensures
        q1[i] == q2[i],
    decreases i,
{
    if i > 0 {
        lemma_same_front(nodes, head, q1, q2, j1, j2, i - 1);
        assert(nodes[q1[i - 1]].next == q1[i]);
        assert(nodes[q2[i - 1]].next == q2[i]);
    }
}

proof fn lemma_same_back(nodes: Map<usize, Node>, q1: Seq<usize>, q2: Seq<usize>, j: int, k: int)
    requires
        chained(nodes, q1, j),
        chained(nodes, q2, j),
        q1[j] == q2[j],
        0 <= k < q1.len() - j,
        k < q2.len() - j,
    ensures
        q1[q1.len() - 1 - k] == q2[q2.len() - 1 - k],
    decreases k,
{
    if k > 0 {
        lemma_same_back(nodes, q1, q2, j, k - 1);
        assert(nodes[q1[q1.len() - k]].prev == q1[q1.len() - 1 - k]);
        assert(nodes[q2[q2.len() - k]].prev == q2[q2.len() - 1 - k]);
    }
}

/// A head leads to one queue only.
pub proof fn queue_is_unique(nodes: Map<usize, Node>, head: usize, q1: Seq<usize>, q2: Seq<usize>)
    requires
        is_queue(nodes, head, q1),
        is_queue(nodes, head, q2),
    ensures
        q1 == q2,
{
    if head == 0 {
        assert(q1 =~= q2);
    } else {
        let j1 = choose|j: int| chained(nodes, q1, j);
        let j2 = choose|j: int| chained(nodes, q2, j);
        let m = if j1 < j2 { j1 } else { j2 };
        lemma_same_front(nodes, head, q1, q2, j1, j2, m);
        assert(q1.last() != 0 && q2.last() != 0);
        assert(nodes[q1[m]].tail == nodes[q2[m]].tail);
        assert(j1 == j2);
        let n1 = q1.len() as int;
        let n2 = q2.len() as int;
        if n1 < n2 {
            lemma_same_back(nodes, q1, q2, j1, n1 - 1 - j1);
            assert(q1[j1] == q2[n2 - n1 + j1]);
            assert(q2[j1] == q2[n2 - n1 + j1]);
            assert(false);
        } else if n2 < n1 {
            lemma_same_back(nodes, q1, q2, j1, n2 - 1 - j1);
            assert(q2[j1] == q1[n1 - n2 + j1]);
            assert(false);
        }
        assert forall|i: int| 0 <= i < n1 implies q1[i] == q2[i] by {
            if i <= j1 {
                lemma_same_front(nodes, head, q1, q2, j1, j2, i);
            } else {
                lemma_same_back(nodes, q1, q2, j1, n1 - 1 - i);
            }
        }
        assert(q1 =~= q2);
    }
}

/// What leads to a queue leads to its waiters.
pub proof fn waiters_of(nodes: Map<usize, Node>, head: usize, queue: Seq<usize>)
    requires
        is_queue(nodes, head, queue),
    ensures
        waiters(nodes, head) == queue,
        has_queue(nodes, head),
{
    queue_is_unique(nodes, head, queue, waiters(nodes, head));
}

/// Finds the tail of the queue of `head`. Every back link on the way is set,
/// and the head remembers the tail, so that the next search ends at once.
pub fn find_tail<M: Memory<Node>>(memory: &mut M, head: usize) -> (tail: usize)
    requires
        head != 0,
        has_queue(old(memory).nodes(), head),
    ensures
        tail == waiters(old(memory).nodes(), head).last(),
        is_queue(final(memory).nodes(), head, waiters(old(memory).nodes(), head)),
        waiters(final(memory).nodes(), head) == waiters(old(memory).nodes(), head),
        linked(final(memory).nodes(), waiters(old(memory).nodes(), head)),
        relinked(old(memory).nodes(), final(memory).nodes(), waiters(old(memory).nodes(), head)),
{
    let ghost before = memory.nodes();
    let ghost queue = waiters(before, head);
    let ghost known = choose|known: int| chained(before, queue, known);
    let mut current: usize = head;
    let ghost mut i: int = 0;
    assert(queue.contains(queue[0]));
    let mut tail: usize = memory.read(head).tail;
    while tail == 0
        invariant
            head != 0,
            is_queue(before, head, queue),
            chained(before, queue, known),
            0 <= i <= known,
            current == queue[i],
            tail == before[current].tail,
            tail == memory.nodes()[current].tail,
            memory.nodes().dom() == before.dom(),
            relinked(before, memory.nodes(), queue),
            forall|a: usize| (#[trigger] memory.nodes()[a]).tail == before[a].tail,
            forall|k: int| 0 < k <= i ==> (#[trigger] memory.nodes()[queue[k]]).prev == queue[k - 1],
            forall|k: int| i < k < queue.len() ==> #[trigger] memory.nodes()[queue[k]] == before[queue[k]],
        decreases known - i,
    {
        assert(i < known);
        assert(queue[i + 1] != queue[0]);
        let next = memory.read(current).next;
        assert(next == queue[i + 1]);
        assert(queue.contains(queue[i + 1]));
        let node = memory.read(next);
        memory.write(next, Node { prev: current, next: node.next, tail: node.tail, flags: node.flags });
        current = next;
        tail = node.tail;
        proof {
            i = i + 1;
        }
    }
    assert(i == known) by {
        if i < known {
            assert(before[queue[i]].tail == 0);
        }
    }
    let node = memory.read(head);
    memory.write(head, Node { prev: node.prev, next: node.next, tail, flags: node.flags });
    proof {
        let after = memory.nodes();
        assert forall|k: int| 0 < k < queue.len() implies (#[trigger] after[queue[k]]).prev == queue[k - 1] by {
            assert(queue[k] != queue[0]);
            if k > known {
                assert(before[queue[k]].prev == queue[k - 1]);
            }
        }
        assert(chained(after, queue, 0));
        waiters_of(after, head, queue);
    }
    tail
}

/// A waiting node that holds more than the queue needs.
pub trait Linked: Sized {
    /// The part that the queue uses.
    spec fn node(self) -> Node;

    /// What becomes of the whole when a search for the tail changes its links.
    spec fn relink(self, node: Node) -> Self;

    /// The links are those that were given.
    proof fn relink_gives(self, node: Node)
        ensures
            self.relink(node).node() == node,
    ;

    /// Reads the part that the queue uses.
    fn get_node(&self) -> (node: Node)
        ensures
            node == self.node(),
    ;

    /// Changes the links.
    fn set_node(self, node: Node) -> (linked: Self)
        ensures
            linked == self.relink(node),
    ;
}

/// The parts that the queue uses.
pub open spec fn links<N: Linked>(nodes: Map<usize, N>) -> Map<usize, Node> {
    nodes.map_values(|n: N| n.node())
}

/// A search for the tail that had to go to position `known` has set the back
/// links up to there and the tail of the head. Where the head knew the tail,
/// nothing has changed.
pub open spec fn searched<N: Linked>(
    before: Map<usize, N>,
    after: Map<usize, N>,
    queue: Seq<usize>,
    known: int,
) -> bool {
    &&& after.dom() =~= before.dom()
    &&& known == 0 ==> after == before
    &&& known > 0 ==> after[queue[0]] == before[queue[0]].relink(
        Node { tail: queue.last(), ..before[queue[0]].node() },
    )
    &&& forall|i: int|
        0 < i <= known ==> #[trigger] after[queue[i]] == before[queue[i]].relink(
            Node { prev: queue[i - 1], ..before[queue[i]].node() },
        )
    &&& forall|i: int| known < i < queue.len() ==> #[trigger] after[queue[i]] == before[queue[i]]
    &&& forall|a: usize| !queue.contains(a) ==> #[trigger] after[a] == before[a]
}

/// Finds the tail of the queue of `head` among nodes that hold more than the
/// queue needs.
pub fn find_linked_tail<N: Linked, M: Memory<N>>(memory: &mut M, head: usize) -> (tail: usize)
    requires
        head != 0,
        has_queue(links(old(memory).nodes()), head),
    ensures
        tail == waiters(links(old(memory).nodes()), head).last(),
        is_queue(links(final(memory).nodes()), head, waiters(links(old(memory).nodes()), head)),
        waiters(links(final(memory).nodes()), head) == waiters(links(old(memory).nodes()), head),
        linked(links(final(memory).nodes()), waiters(links(old(memory).nodes()), head)),
        exists|known: int|
            chained(links(old(memory).nodes()), waiters(links(old(memory).nodes()), head), known)
                && #[trigger] searched(
                old(memory).nodes(),
                final(memory).nodes(),
                waiters(links(old(memory).nodes()), head),
                known,
            ),
{
    let ghost before = memory.nodes();
    let ghost queue = waiters(links(before), head);
    let ghost known = choose|known: int| chained(links(before), queue, known);
    assert(queue.contains(queue[0]));
    let mut tail: usize = memory.read(head).get_node().tail;
    if tail != 0 {
        proof {
            if known > 0 {
                assert(links(before)[queue[0]].tail == 0);
            }
            assert(searched(before, memory.nodes(), queue, 0));
            waiters_of(links(memory.nodes()), head, queue);
        }
        return tail;
    }
    let mut current: usize = head;
    let ghost mut i: int = 0;
    while tail == 0
        invariant
            head != 0,
            is_queue(links(before), head, queue),
            chained(links(before), queue, known),
            0 <= i <= known,
            current == queue[i],
            tail == before[current].node().tail,
            memory.nodes().dom() =~= before.dom(),
            forall|k: int|
                0 < k <= i ==> #[trigger] memory.nodes()[queue[k]] == before[queue[k]].relink(
                    Node { prev: queue[k - 1], ..before[queue[k]].node() },
                ),
            forall|k: int|
                (k == 0 || i < k) && k < queue.len() ==> #[trigger] memory.nodes()[queue[k]]
                    == before[queue[k]],
            forall|a: usize| !queue.contains(a) ==> #[trigger] memory.nodes()[a] == before[a],
            i > 0 || tail == 0,
        decreases known - i,
    {
        assert(i < known) by {
            assert(links(before)[queue[known]].tail == queue.last());
        }
        assert(queue.contains(queue[i]) && queue.contains(queue[i + 1]));
        assert(links(before)[queue[i]].next == queue[i + 1]);
        proof {
            if i > 0 {
                before[queue[i]].relink_gives(
                    Node { prev: queue[i - 1], ..before[queue[i]].node() },
                );
            }
        }
        let next = memory.read(current).get_node().next;
        let linked = memory.read(next);
        let node = linked.get_node();
        memory.write(
            next,
            linked.set_node(
                Node { prev: current, next: node.next, tail: node.tail, flags: node.flags },
            ),
        );
        current = next;
        tail = node.tail;
        proof {
            i = i + 1;
            assert forall|k: int| 0 < k < i implies #[trigger] queue[k] != queue[i] by {}
        }
    }
    assert(i == known) by {
        if i < known {
            assert(links(before)[queue[i]].tail == 0);
        }
    }
    let linked = memory.read(head);
    let node = linked.get_node();
    memory.write(
        head,
        linked.set_node(Node { prev: node.prev, next: node.next, tail, flags: node.flags }),
    );
    proof {
        let after = memory.nodes();
        assert(links(before)[queue[known]].tail == queue.last());
        assert forall|k: int| 0 < k < queue.len() implies #[trigger] queue[k] != queue[0] by {}
        assert(searched(before, after, queue, known));
        before[head].relink_gives(Node { tail, ..before[head].node() });
        assert forall|k: int| 0 < k < queue.len() implies (#[trigger] links(after)[queue[k]]).prev
            == queue[k - 1] by {
            assert(after.contains_key(queue[k]));
            if k <= known {
                before[queue[k]].relink_gives(
                    Node { prev: queue[k - 1], ..before[queue[k]].node() },
                );
            } else {
                assert(links(before)[queue[k]].prev == queue[k - 1]);
            }
        }
        assert(chained(links(after), queue, 0));
        waiters_of(links(after), head, queue);
    }
    tail
}

/// What the head of a queue becomes when its tail has left it.
pub open spec fn shortened(node: Node, new_tail: usize) -> Node {
    Node { prev: node.prev, next: node.next, tail: new_tail, flags: node.flags }
}

/// Pushing a node puts it in front of all others.
pub proof fn push_extends(nodes: Map<usize, Node>, head: usize, queue: Seq<usize>, address: usize)
    requires
        is_queue(nodes, head, queue),
        address != 0,
        nodes.contains_key(address),
        nodes[address].prev == 0,
        !queue.contains(address),
    ensures
        is_queue(
            nodes.insert(address, pushed(nodes[address], address, head)),
            address,
            seq![address] + queue,
        ),
{
    let after = nodes.insert(address, pushed(nodes[address], address, head));
    let longer = seq![address] + queue;
    assert(longer[0] == address);
    assert forall|i: int, j: int| 0 <= i < longer.len() && 0 <= j < longer.len() && i != j implies longer[i] != longer[j] by {
        if i > 0 && j > 0 {
            assert(queue[i - 1] != queue[j - 1]);
        } else if i > 0 {
            assert(queue.contains(queue[i - 1]));
        } else {
            assert(queue.contains(queue[j - 1]));
        }
    }
    assert forall|i: int| 0 <= i < longer.len() implies (#[trigger] longer[i]) != 0 && after.contains_key(longer[i]) by {
        if i > 0 {
            assert(longer[i] == queue[i - 1]);
        }
    }
    if head == 0 {
        assert(longer.last() == address);
        assert(chained(after, longer, 0));
    } else {
        let known = choose|known: int| chained(nodes, queue, known);
        assert(longer.last() == queue.last());
        assert forall|i: int| 0 <= i < known + 1 implies (#[trigger] after[longer[i]]).tail == 0 && after[longer[i]].next == longer[i + 1] by {
            if i > 0 {
                assert(queue.contains(queue[i - 1]));
                assert(after[longer[i]] == nodes[queue[i - 1]]);
            }
        }
        assert forall|i: int| known + 1 < i < longer.len() implies (#[trigger] after[longer[i]]).prev == longer[i - 1] by {
            assert(queue.contains(queue[i - 1]));
            assert(after[longer[i]] == nodes[queue[i - 1]]);
        }
        assert(queue.contains(queue[known]));
        assert(after[longer[known + 1]] == nodes[queue[known]]);
        assert(chained(after, longer, known + 1));
    }
}

/// Taking the tail from a linked queue leaves all others in their order.
pub proof fn pop_shortens(nodes: Map<usize, Node>, head: usize, queue: Seq<usize>)
    requires
        head != 0,
        is_queue(nodes, head, queue),
        linked(nodes, queue),
        queue.len() > 1,
    ensures
        nodes[queue.last()].prev == queue[queue.len() - 2],
        is_queue(
            nodes.insert(head, shortened(nodes[head], nodes[queue.last()].prev)),
            head,
            queue.drop_last(),
        ),
{
    let new_tail = nodes[queue.last()].prev;
    let after = nodes.insert(head, shortened(nodes[head], new_tail));
    let shorter = queue.drop_last();
    assert(nodes[queue[queue.len() - 1]].prev == queue[queue.len() - 2]);
    assert(shorter.last() == new_tail);
    assert forall|i: int| 0 < i < shorter.len() implies (#[trigger] after[shorter[i]]).prev == shorter[i - 1] by {
        assert(shorter[i] == queue[i]);
        assert(queue[i] != queue[0]);
        assert(nodes[queue[i]].prev == queue[i - 1]);
    }
    assert(chained(after, shorter, 0));
}

/// In a linked queue the tail has no back link exactly where it is alone.
pub proof fn lone_tail(nodes: Map<usize, Node>, head: usize, queue: Seq<usize>)
    requires
        head != 0,
        is_queue(nodes, head, queue),
        linked(nodes, queue),
    ensures
        nodes[queue.last()].prev == 0 <==> queue.len() == 1,
        queue.len() == 1 ==> queue.last() == head,
{
    if queue.len() > 1 {
        assert(nodes[queue[queue.len() - 1]].prev == queue[queue.len() - 2]);
    }
}

/// Changes outside of a queue leave it as it is.
pub proof fn queue_is_framed(before: Map<usize, Node>, after: Map<usize, Node>, head: usize, queue: Seq<usize>)
    requires
        is_queue(before, head, queue),
        forall|a: usize| queue.contains(a) ==> #[trigger] after.contains_key(a) && after[a] == before[a],
    ensures
        is_queue(after, head, queue),
{
    if head != 0 {
        let known = choose|known: int| chained(before, queue, known);
        assert forall|i: int| 0 <= i < queue.len() implies after.contains_key(#[trigger] queue[i]) && after[queue[i]] == before[queue[i]] by {
            assert(queue.contains(queue[i]));
        }
        assert(chained(after, queue, known));
    }
}

/// The nodes in front of position `k` have not been looked at since they were
/// pushed.
pub open spec fn unseen_before(nodes: Map<usize, Node>, queue: Seq<usize>, k: int) -> bool {
    &&& 0 <= k < queue.len()
    &&& nodes[queue[k]].prev == 0
    &&& forall|i: int|
        0 <= i < k ==> (#[trigger] nodes[queue[i]]).tail == 0 && nodes[queue[i]].next == queue[i
            + 1]
}

/// `head` was the newest node when the thread looked, and nodes may have come
/// in since.
pub open spec fn knows(nodes: Map<usize, Node>, queue: Seq<usize>, head: usize) -> bool {
    exists|k: int| #[trigger] unseen_before(nodes, queue, k) && queue[k] == head
}

/// The part of a queue that a thread knows is a queue of its own.
pub proof fn suffix_is_queue(nodes: Map<usize, Node>, queue: Seq<usize>, k: int)
    requires
        queue.len() > 0,
        is_queue(nodes, queue[0], queue),
        unseen_before(nodes, queue, k),
    ensures
        is_queue(nodes, queue[k], queue.skip(k)),
{
    let known = choose|known: int| chained(nodes, queue, known);
    assert(queue.last() != 0);
    assert(known >= k) by {
        if known < k {
            assert(nodes[queue[known]].tail == 0);
        }
    }
    let rest = queue.skip(k);
    assert forall|i: int| 0 <= i < rest.len() implies (#[trigger] rest[i]) != 0 && nodes.contains_key(rest[i]) by {
        assert(rest[i] == queue[i + k]);
    }
    assert(rest.last() == queue.last());
    assert forall|i: int| 0 <= i < known - k implies (#[trigger] nodes[rest[i]]).tail == 0 && nodes[rest[i]].next == rest[i + 1] by {
        assert(rest[i] == queue[i + k]);
    }
    assert forall|i: int| known - k < i < rest.len() implies (#[trigger] nodes[rest[i]]).prev == rest[i - 1] by {
        assert(rest[i] == queue[i + k]);
    }
    assert(chained(nodes, rest, known - k));
}

/// Nodes that came in since lead to the known part of the queue.
pub proof fn suffix_extends(nodes: Map<usize, Node>, queue: Seq<usize>, k: int)
    requires
        queue.len() > 0,
        proper(nodes, queue),
        nodes[queue[0]].prev == 0,
        unseen_before(nodes, queue, k),
        is_queue(nodes, queue[k], queue.skip(k)),
    ensures
        is_queue(nodes, queue[0], queue),
{
    let rest = queue.skip(k);
    assert(queue[k] != 0);
    let known = choose|known: int| chained(nodes, rest, known);
    assert(rest.last() == queue.last());
    assert(rest[known] == queue[known + k]);
    assert forall|i: int| 0 <= i < known + k implies (#[trigger] nodes[queue[i]]).tail == 0 && nodes[queue[i]].next == queue[i + 1] by {
        if i >= k {
            assert(queue[i] == rest[i - k]);
            assert(nodes[rest[i - k]].tail == 0);
        }
    }
    assert forall|i: int| known + k < i < queue.len() implies (#[trigger] nodes[queue[i]]).prev == queue[i - 1] by {
        assert(queue[i] == rest[i - k]);
        assert(nodes[rest[i - k]].prev == rest[i - k - 1]);
    }
    assert(chained(nodes, queue, known + k));
}

/// Completing the links of the known part of a queue keeps the whole queue.
pub proof fn relink_keeps(nodes: Map<usize, Node>, mid: Map<usize, Node>, queue: Seq<usize>, k: int)
    requires
        queue.len() > 0,
        is_queue(nodes, queue[0], queue),
        unseen_before(nodes, queue, k),
        relinked(nodes, mid, queue.skip(k)),
        is_queue(mid, queue[k], queue.skip(k)),
    ensures
        is_queue(mid, queue[0], queue),
        unseen_before(mid, queue, k),
{
    let rest = queue.skip(k);
    assert(rest[0] == queue[k]);
    assert forall|i: int| 0 <= i < k implies #[trigger] mid[queue[i]] == nodes[queue[i]] by {
        if rest.contains(queue[i]) {
            let j = choose|j: int| 0 <= j < rest.len() && rest[j] == queue[i];
            assert(queue[j + k] == queue[i]);
        }
    }
    assert(unseen_before(mid, queue, k));
    suffix_extends(mid, queue, k);
}

/// Taking the tail from the known part of a queue takes it from the whole.
pub proof fn pop_keeps(mid: Map<usize, Node>, after: Map<usize, Node>, queue: Seq<usize>, k: int)
    requires
        queue.len() > 0,
        is_queue(mid, queue[0], queue),
        unseen_before(mid, queue, k),
        queue.skip(k).len() > 1,
        after == mid.insert(
            queue[k],
            shortened(mid[queue[k]], queue.skip(k)[queue.skip(k).len() - 2]),
        ),
        is_queue(after, queue[k], queue.skip(k).drop_last()),
    ensures
        is_queue(after, queue[0], queue.drop_last()),
{
    let shorter = queue.drop_last();
    assert(shorter.skip(k) =~= queue.skip(k).drop_last());
    assert forall|i: int| 0 <= i < k implies #[trigger] after[shorter[i]] == mid[queue[i]] by {
        assert(queue[i] != queue[k]);
    }
    assert(unseen_before(after, shorter, k)) by {
        assert forall|i: int| 0 <= i < k implies (#[trigger] after[shorter[i]]).tail == 0 && after[shorter[i]].next == shorter[i + 1] by {
            assert(mid[queue[i]].tail == 0);
        }
    }
    suffix_extends(after, shorter, k);
}

/// Completing the links keeps a queue.
pub proof fn relinked_is_queue(nodes: Map<usize, Node>, mid: Map<usize, Node>, head: usize, queue: Seq<usize>)
    requires
        head != 0,
        is_queue(nodes, head, queue),
        relinked(nodes, mid, queue),
        linked(mid, queue),
    ensures
        is_queue(mid, head, queue),
{
}

/// The spacing of the addresses in an arena. It leaves the low bits of an
/// address free for the flags of any lock word.
pub const NODE_ALIGN: usize = 512;

/// The position of an address in an arena.
pub open spec fn slot_of(address: usize) -> int {
    address / NODE_ALIGN - 1
}

/// Node memory that hands out addresses in order.
pub struct NodeArena<N> {
    pub slots: Vec<N>,
}

impl<N: Copy> Memory<N> for NodeArena<N> {
    open spec fn nodes(&self) -> Map<usize, N> {
        Map::new(
            |a: usize| a % NODE_ALIGN == 0 && 0 <= slot_of(a) < self.slots.len(),
            |a: usize| self.slots[slot_of(a)],
        )
    }

    fn read(&self, address: usize) -> (node: N) {
        self.slots[address / NODE_ALIGN - 1]
    }

    fn write(&mut self, address: usize, node: N) {
        let index: usize = address / NODE_ALIGN - 1;
        self.slots.set(index, node);
        proof {
            assert(forall|a: usize|
                a % NODE_ALIGN == 0 && a != address ==> #[trigger] slot_of(a) != index);
            assert(self.nodes() =~= old(self).nodes().insert(address, node));
        }
    }
}

impl<N: Copy> NodeArena<N> {
    /// An arena without nodes.
    pub fn new() -> (arena: Self)
        ensures
            arena.slots.len() == 0,
            arena.nodes().dom() =~= Set::<usize>::empty(),
    {
        NodeArena { slots: Vec::new() }
    }

    /// Adds a node and returns its address. Returns `None`, and adds nothing,
    /// when all addresses are in use.
    pub fn add_node(&mut self, node: N) -> (address: Option<usize>)
        ensures
            address is None <==> old(self).slots.len() >= usize::MAX / NODE_ALIGN,
            address is None ==> final(self).slots == old(self).slots,
            address matches Some(a) ==> {
                &&& a == (old(self).slots.len() + 1) * NODE_ALIGN
                &&& !old(self).nodes().contains_key(a)
                &&& final(self).nodes() == old(self).nodes().insert(a, node)
            },
    {
        if self.slots.len() >= usize::MAX / NODE_ALIGN {
            return None;
        }
        self.slots.push(node);
        let address: usize = self.slots.len() * NODE_ALIGN;
        proof {
            assert(address / NODE_ALIGN == self.slots.len());
            assert(forall|a: usize|
                a % NODE_ALIGN == 0 && a != address ==> #[trigger] slot_of(a) != slot_of(address));
            assert(self.nodes() =~= old(self).nodes().insert(address, node));
        }
        Some(address)
    }
}

} // verus!
