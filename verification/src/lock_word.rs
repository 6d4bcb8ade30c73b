//! Lock words with a wait queue.
//!
//! A lock word holds two flags and the address of the newest waiting node. One
//! flag tells that the lock is held, the other that some thread is taking a
//! node out of the queue. Every function here does at most one atomic
//! operation on the word, so that a caller may run it as one read, modify and
//! write of a shared word.
use crate::queue;
use crate::queue::{find_tail, Node, Memory};
use vstd::arithmetic::power2::{
    lemma2_to64, lemma_pow2_strictly_increases, lemma_pow2_unfold, pow2,
};
use vstd::prelude::*;

verus! {

/// The lock is held.
pub const MUTEX_LOCK: usize = 1;

/// A thread is taking a node out of the queue.
pub const QUEUE_LOCK: usize = 2;

/// The bits of the address of the newest waiting node.
pub const QUEUE_MASK: usize = !(MUTEX_LOCK | QUEUE_LOCK);

/// The lock is held.
pub open spec fn is_locked(word: usize) -> bool {
    word & MUTEX_LOCK != 0
}

/// The right to take nodes out of the queue is held.
pub open spec fn is_queue_locked(word: usize) -> bool {
    word & QUEUE_LOCK != 0
}

/// The address of the newest waiting node, or null.
pub open spec fn head_of(word: usize) -> usize {
    word & QUEUE_MASK
}

/// An address that leaves room for the flags.
pub open spec fn is_address(node: usize) -> bool {
    node != 0 && node & !QUEUE_MASK == 0
}

/// The word with the lock held.
pub open spec fn with_lock(word: usize) -> usize {
    word | MUTEX_LOCK
}

/// The word with the lock free.
pub open spec fn without_lock(word: usize) -> usize {
    word & !MUTEX_LOCK
}

/// The word with the right to the queue held.
pub open spec fn with_queue_lock(word: usize) -> usize {
    word | QUEUE_LOCK
}

/// The word with the right to the queue free.
pub open spec fn without_queue_lock(word: usize) -> usize {
    word & !QUEUE_LOCK
}

/// The word with the lock as it is and no queue.
pub open spec fn without_queue(word: usize) -> usize {
    word & MUTEX_LOCK
}

/// The word with another newest node.
pub open spec fn with_head(word: usize, node: usize) -> usize {
    node | (word & !QUEUE_MASK)
}

/// Each change of a word touches the fields that its name tells, and no other.
pub proof fn word_fields(w: usize, node: usize)
    by (bit_vector)
    ensures
        is_locked(with_lock(w)),
        is_queue_locked(with_lock(w)) == is_queue_locked(w),
        head_of(with_lock(w)) == head_of(w),
        !is_locked(without_lock(w)),
        is_queue_locked(without_lock(w)) == is_queue_locked(w),
        head_of(without_lock(w)) == head_of(w),
        is_queue_locked(with_queue_lock(w)),
        is_locked(with_queue_lock(w)) == is_locked(w),
        head_of(with_queue_lock(w)) == head_of(w),
        !is_queue_locked(without_queue_lock(w)),
        is_locked(without_queue_lock(w)) == is_locked(w),
        head_of(without_queue_lock(w)) == head_of(w),
        !is_queue_locked(without_queue(w)),
        is_locked(without_queue(w)) == is_locked(w),
        head_of(without_queue(w)) == 0,
        is_address(node) ==> head_of(with_head(w, node)) == node,
        is_address(node) ==> is_locked(with_head(w, node)) == is_locked(w),
        is_address(node) ==> is_queue_locked(with_head(w, node)) == is_queue_locked(w),
        is_locked(w) ==> without_lock(w) == w - 1,
        head_of(w) != 0 ==> is_address(head_of(w)),
        w == 0 <==> !is_locked(w) && !is_queue_locked(w) && head_of(w) == 0,
{
}

/// Replaces a word by `new` if it still is `current`. The word that was there
/// comes back either way.
pub fn compare_exchange(word: &mut usize, current: usize, new: usize) -> (result: Result<usize, usize>)
    ensures
        *old(word) == current ==> result == Ok::<usize, usize>(current) && *final(word) == new,
        *old(word) != current ==> result == Err::<usize, usize>(*old(word)) && *final(word) == *old(word),
{
    let seen: usize = *word;
    if seen == current {
        *word = new;
        Ok(seen)
    } else {
        Err(seen)
    }
}

/// Takes the lock if the word still is `state`, in which the lock is free.
/// Otherwise the word that was there comes back.
pub fn try_acquire(word: &mut usize, state: usize) -> (result: Result<(), usize>)
    ensures
        *old(word) == state ==> result is Ok && *final(word) == with_lock(state),
        *old(word) != state ==> result == Err::<(), usize>(*old(word)) && *final(word) == *old(word),
{
    match compare_exchange(word, state, state | MUTEX_LOCK) {
        Ok(_) => Ok(()),
        Err(seen) => Err(seen),
    }
}

/// Links a node in front of the queue of `state` and makes it the newest node
/// if the word still is `state`. Otherwise the word that was there comes back.
pub fn try_enqueue<M: Memory<Node>>(
    word: &mut usize,
    memory: &mut M,
    state: usize,
    address: usize,
) -> (result: Result<(), usize>)
    requires
        is_address(address),
        old(memory).nodes().contains_key(address),
    ensures
        final(memory).nodes() == old(memory).nodes().insert(
            address,
            queue::pushed(old(memory).nodes()[address], address, head_of(state)),
        ),
        *old(word) == state ==> result is Ok && *final(word) == with_head(state, address),
        *old(word) != state ==> result == Err::<(), usize>(*old(word)) && *final(word) == *old(word),
{
    let head: usize = state & QUEUE_MASK;
    let node = memory.read(address);
    let tail: usize = if head == 0 {
        address
    } else {
        0
    };
    memory.write(address, Node { prev: node.prev, next: head, tail, flags: node.flags });
    match compare_exchange(word, state, address | (state & !QUEUE_MASK)) {
        Ok(_) => Ok(()),
        Err(seen) => Err(seen),
    }
}

/// Releases the lock. Tells whether there is a node to wake and nobody who is
/// already taking one out of the queue.
pub fn release(word: &mut usize) -> (wake: bool)
    requires
        is_locked(*old(word)),
    ensures
        *final(word) == without_lock(*old(word)),
        wake == (head_of(*old(word)) != 0 && !is_queue_locked(*old(word))),
{
    let state: usize = *word;
    proof {
        word_fields(state, 0);
    }
    *word = state - MUTEX_LOCK;
    state & QUEUE_MASK != 0 && state & QUEUE_LOCK == 0
}

/// What a thread does before it blocks.
#[derive(Clone, Copy, PartialEq, Eq, Debug, Structural)]
pub enum Backoff {
    /// While nobody waits it spins, each time twice as long, at most this
    /// number of times.
    Double(usize),
    /// It asks whether to go on without blocking.
    Ask,
    /// It asks whether to go on without blocking, but only while nobody waits.
    AskUncontended,
}

/// A thread that tries to get the lock.
#[derive(Clone, Copy, PartialEq, Eq, Debug, Structural)]
pub struct Attempt {
    /// The word as the thread has seen it last, or `None` if it must look.
    pub state: Option<usize>,
    /// How often the thread went on without blocking since it began or was
    /// woken.
    pub spin: usize,
    /// The thread was told to block on the word it has seen.
    pub refused: bool,
    /// The node under which the thread waits, once it has one.
    pub node: Option<usize>,
    /// The node is in the queue already.
    pub queued: bool,
    pub backoff: Backoff,
}

/// What came of one step towards the lock.
#[derive(Clone, Copy, PartialEq, Eq, Debug, Structural)]
pub enum AttemptStep {
    /// The lock is held.
    Acquired,
    /// There is more to do.
    Continue,
    /// The thread is to give this number of spin hints before it goes on.
    Spin(usize),
    /// The thread is to ask whether it may go on without blocking, and whether
    /// others wait and how often it asked before matters for that.
    Yield { contended: bool, iteration: usize },
    /// The thread needs a node before it goes on.
    NeedNode,
    /// The node of the thread is in the queue and the thread is to block.
    Wait,
}

/// The thread asks before it blocks on a word with this newest node.
pub open spec fn asks(backoff: Backoff, head: usize) -> bool {
    match backoff {
        Backoff::Double(_) => false,
        Backoff::Ask => true,
        Backoff::AskUncontended => head == 0,
    }
}

/// The thread spins before it blocks on a word with this newest node.
pub open spec fn spins(backoff: Backoff, head: usize, spin: usize) -> bool {
    match backoff {
        Backoff::Double(limit) => head == 0 && spin < limit,
        _ => false,
    }
}

/// One step of `before` on the word and the nodes.
pub open spec fn attempt_steps(
    before: Attempt,
    after: Attempt,
    word: usize,
    new_word: usize,
    nodes: Map<usize, Node>,
    new_nodes: Map<usize, Node>,
    step: AttemptStep,
) -> bool {
    match before.state {
        // The thread looks at the word.
        None => {
            &&& step == AttemptStep::Continue
            &&& after == (Attempt { state: Some(word), refused: false, ..before })
            &&& new_word == word
            &&& new_nodes == nodes
        },
        Some(state) => if !is_locked(state) {
            // The lock was free.
            &&& new_nodes == nodes
            &&& if word == state {
                &&& step == AttemptStep::Acquired
                &&& after == before
                &&& new_word == with_lock(state)
            } else {
                &&& step == AttemptStep::Continue
                &&& after == (Attempt { state: Some(word), refused: false, ..before })
                &&& new_word == word
            }
        } else if before.queued {
            &&& step == AttemptStep::Wait
            &&& after == before
            &&& new_word == word
            &&& new_nodes == nodes
        } else if spins(before.backoff, head_of(state), before.spin) {
            &&& step == AttemptStep::Spin(pow2((before.spin + 1) as nat) as usize)
            &&& after == (Attempt { state: None, spin: (before.spin + 1) as usize, ..before })
            &&& new_word == word
            &&& new_nodes == nodes
        } else if asks(before.backoff, head_of(state)) && !before.refused {
            &&& step == AttemptStep::Yield {
                contended: head_of(state) != 0,
                iteration: before.spin,
            }
            &&& after == before
            &&& new_word == word
            &&& new_nodes == nodes
        } else {
            match before.node {
                None => {
                    &&& step == AttemptStep::NeedNode
                    &&& after == before
                    &&& new_word == word
                    &&& new_nodes == nodes
                },
                Some(node) => {
                    &&& new_nodes == nodes.insert(
                        node,
                        queue::pushed(nodes[node], node, head_of(state)),
                    )
                    &&& if word == state {
                        &&& step == AttemptStep::Wait
                        &&& after == (Attempt { queued: true, ..before })
                        &&& new_word == with_head(state, node)
                    } else {
                        &&& step == AttemptStep::Continue
                        &&& after == (Attempt { state: Some(word), refused: false, ..before })
                        &&& new_word == word
                    }
                },
            }
        },
    }
}

impl Attempt {
    /// The thread may take a step: a node it has is one of the memory, with
    /// room for the flags in its address, and the number of hints it may spin
    /// for is a machine number.
    pub open spec fn ready(self, nodes: Map<usize, Node>) -> bool {
        &&& self.node matches Some(node) ==> is_address(node) && nodes.contains_key(node)
        &&& self.backoff matches Backoff::Double(limit) ==> limit < 31
    }

    /// A thread that has not yet looked at the word.
    pub fn new(backoff: Backoff) -> (attempt: Self)
        ensures
            attempt == (Attempt {
                state: None,
                spin: 0,
                refused: false,
                node: None,
                queued: false,
                backoff,
            }),
    {
        Attempt { state: None, spin: 0, refused: false, node: None, queued: false, backoff }
    }

    /// Gives the thread a node that is in no queue.
    pub fn set_node(&mut self, node: usize)
        ensures
            *final(self) == (Attempt { node: Some(node), ..*old(self) }),
    {
        self.node = Some(node);
    }

    /// Tells the thread whether it may go on without blocking.
    pub fn yielded(&mut self, allowed: bool)
        ensures
            *final(self) == (if allowed {
                Attempt {
                    state: None,
                    spin: if old(self).spin == usize::MAX {
                        0
                    } else {
                        (old(self).spin + 1) as usize
                    },
                    ..*old(self)
                }
            } else {
                Attempt { refused: true, ..*old(self) }
            }),
    {
        if allowed {
            self.spin = self.spin.wrapping_add(1);
            self.state = None;
        } else {
            self.refused = true;
        }
    }

    /// Goes on after the thread was woken: its node has no back link any more
    /// and the thread begins anew.
    pub fn woken<M: Memory<Node>>(&mut self, memory: &mut M)
        requires
            old(self).ready(old(memory).nodes()),
        ensures
            *final(self) == (Attempt {
                state: None,
                spin: 0,
                refused: false,
                queued: false,
                ..*old(self)
            }),
            final(memory).nodes() == (match old(self).node {
                None => old(memory).nodes(),
                Some(node) => old(memory).nodes().insert(
                    node,
                    Node { prev: 0, ..old(memory).nodes()[node] },
                ),
            }),
    {
        if let Some(address) = self.node {
            let node = memory.read(address);
            memory.write(
                address,
                Node { prev: 0, next: node.next, tail: node.tail, flags: node.flags },
            );
        }
        self.spin = 0;
        self.refused = false;
        self.queued = false;
        self.state = None;
    }

    /// Takes one step.
    pub fn step<M: Memory<Node>>(&mut self, word: &mut usize, memory: &mut M) -> (step: AttemptStep)
        requires
            old(self).ready(old(memory).nodes()),
        ensures
            attempt_steps(
                *old(self),
                *final(self),
                *old(word),
                *final(word),
                old(memory).nodes(),
                final(memory).nodes(),
                step,
            ),
    {
        let state: usize = match self.state {
            None => {
                self.state = Some(*word);
                self.refused = false;
                return AttemptStep::Continue;
            },
            Some(state) => state,
        };
        // Try to get the lock whenever it is free.
        if state & MUTEX_LOCK == 0 {
            return match try_acquire(word, state) {
                Ok(_) => AttemptStep::Acquired,
                Err(seen) => self.saw(seen),
            };
        }
        if self.queued {
            return AttemptStep::Wait;
        }
        // Go on without blocking for a while.
        let head: usize = state & QUEUE_MASK;
        match self.backoff {
            Backoff::Double(limit) => {
                if head == 0 && self.spin < limit {
                    self.spin = self.spin + 1;
                    self.state = None;
                    return AttemptStep::Spin(doubled(self.spin));
                }
            },
            Backoff::Ask => {
                if !self.refused {
                    return AttemptStep::Yield { contended: head != 0, iteration: self.spin };
                }
            },
            Backoff::AskUncontended => {
                if head == 0 && !self.refused {
                    return AttemptStep::Yield { contended: false, iteration: self.spin };
                }
            },
        }
        // Join the queue.
        match self.node {
            None => AttemptStep::NeedNode,
            Some(node) => match try_enqueue(word, memory, state, node) {
                Ok(_) => {
                    self.queued = true;
                    AttemptStep::Wait
                },
                Err(seen) => self.saw(seen),
            },
        }
    }

    /// Goes on with the word that is there.
    fn saw(&mut self, word: usize) -> (step: AttemptStep)
        ensures
            step == AttemptStep::Continue,
            *final(self) == (Attempt { state: Some(word), refused: false, ..*old(self) }),
    {
        self.state = Some(word);
        self.refused = false;
        AttemptStep::Continue
    }
}

/// Two to the power of `spin`.
pub fn doubled(spin: usize) -> (count: usize)
    requires
        spin < 32,
    ensures
        count == pow2(spin as nat),
{
    let mut count: usize = 1;
    let mut i: usize = 0;
    proof {
        lemma2_to64();
    }
    while i < spin
        invariant
            i <= spin < 32,
            count == pow2(i as nat),
        decreases spin - i,
    {
        proof {
            lemma_pow2_unfold((i + 1) as nat);
            lemma2_to64();
            if i < 30 {
                lemma_pow2_strictly_increases((i + 1) as nat, 31);
            }
        }
        count = 2 * count;
        i = i + 1;
    }
    count
}

/// Where a thread is on its way to wake a waiting node.
#[derive(Clone, Copy, PartialEq, Eq, Debug, Structural)]
pub enum DequeuePhase {
    /// It still needs the right to the queue.
    LockQueue,
    /// It holds the right to the queue and looks for the tail.
    FindTail,
    /// It takes out this node, which was alone in the queue.
    TakeLast(usize),
}

/// A thread that wakes a waiting node after it has released a lock.
#[derive(Clone, Copy, PartialEq, Eq, Debug, Structural)]
pub struct Dequeue {
    /// The word as the thread has seen it last, or `None` if it must look.
    pub state: Option<usize>,
    pub phase: DequeuePhase,
    /// The thread counts its own right to the queue into the word it has seen.
    pub sees_own_flag: bool,
}

/// What came of one step towards waking a node.
#[derive(Clone, Copy, PartialEq, Eq, Debug, Structural)]
pub enum DequeueStep {
    /// There is more to do.
    Continue,
    /// Another thread will do the waking, or there is nobody to wake.
    Done,
    /// This node has left the queue and is to be woken.
    Wake(usize),
}

/// One step of `before` on the word and the nodes.
pub open spec fn dequeue_steps(
    before: Dequeue,
    after: Dequeue,
    word: usize,
    new_word: usize,
    nodes: Map<usize, Node>,
    new_nodes: Map<usize, Node>,
    step: DequeueStep,
) -> bool {
    match before.state {
        // The thread looks at the word.
        None => {
            &&& step == DequeueStep::Continue
            &&& after == (Dequeue { state: Some(word), ..before })
            &&& new_word == word
            &&& new_nodes == nodes
        },
        Some(state) => match before.phase {
            DequeuePhase::LockQueue => {
                &&& new_nodes == nodes
                &&& if head_of(state) == 0 || is_queue_locked(state) {
                    &&& step == DequeueStep::Done
                    &&& after == before
                    &&& new_word == word
                } else if word == state {
                    &&& step == DequeueStep::Continue
                    &&& after == (Dequeue {
                        state: Some(
                            if before.sees_own_flag {
                                with_queue_lock(state)
                            } else {
                                state
                            },
                        ),
                        phase: DequeuePhase::FindTail,
                        ..before
                    })
                    &&& new_word == with_queue_lock(state)
                } else {
                    &&& step == DequeueStep::Continue
                    &&& after == (Dequeue { state: Some(word), ..before })
                    &&& new_word == word
                }
            },
            DequeuePhase::FindTail => {
                let head = head_of(state);
                let queue = queue::waiters(nodes, head);
                if is_locked(state) || queue.len() == 1 {
                    &&& queue::relinked(nodes, new_nodes, queue)
                    &&& queue::linked(new_nodes, queue)
                    &&& queue::is_queue(new_nodes, head, queue)
                    &&& if is_locked(state) && word == state {
                        // The holder of the lock will wake the tail.
                        &&& step == DequeueStep::Done
                        &&& after == before
                        &&& new_word == without_queue_lock(state)
                    } else if word == state {
                        // The tail is alone and the queue ends.
                        &&& step == DequeueStep::Wake(queue.last())
                        &&& after == before
                        &&& new_word == without_queue(state)
                    } else {
                        &&& step == DequeueStep::Continue
                        &&& after == (Dequeue {
                            state: Some(word),
                            phase: if is_locked(state) || head_of(word) != 0 {
                                DequeuePhase::FindTail
                            } else {
                                DequeuePhase::TakeLast(queue.last())
                            },
                            ..before
                        })
                        &&& new_word == word
                    }
                } else {
                    // The tail leaves and its back link becomes the tail.
                    &&& step == DequeueStep::Wake(queue.last())
                    &&& after == before
                    &&& new_word == without_queue_lock(word)
                    &&& exists|mid: Map<usize, Node>| #[trigger]
                        queue::relinked(nodes, mid, queue) && queue::linked(mid, queue) && new_nodes
                            == mid.insert(head, queue::shortened(mid[head], queue[queue.len() - 2]))
                    &&& queue::is_queue(new_nodes, head, queue.drop_last())
                }
            },
            DequeuePhase::TakeLast(tail) => {
                &&& new_nodes == nodes
                &&& if word == state {
                    &&& step == DequeueStep::Wake(tail)
                    &&& after == before
                    &&& new_word == without_queue(state)
                } else {
                    &&& step == DequeueStep::Continue
                    &&& after == (Dequeue {
                        state: Some(word),
                        phase: if head_of(word) != 0 {
                            DequeuePhase::FindTail
                        } else {
                            before.phase
                        },
                        ..before
                    })
                    &&& new_word == word
                }
            },
        },
    }
}

impl Dequeue {
    /// The thread may take a step: while it looks for the tail, what it has
    /// seen leads to a queue.
    pub open spec fn ready(self, nodes: Map<usize, Node>) -> bool {
        self.phase == DequeuePhase::FindTail ==> (self.state matches Some(state) ==> head_of(state)
            != 0 && queue::has_queue(nodes, head_of(state)))
    }

    /// A thread that has just released a lock.
    pub fn new(sees_own_flag: bool) -> (dequeue: Self)
        ensures
            dequeue == (Dequeue {
                state: None,
                phase: DequeuePhase::LockQueue,
                sees_own_flag,
            }),
    {
        Dequeue { state: None, phase: DequeuePhase::LockQueue, sees_own_flag }
    }

    /// Takes one step.
    pub fn step<M: Memory<Node>>(&mut self, word: &mut usize, memory: &mut M) -> (step: DequeueStep)
        requires
            old(self).ready(old(memory).nodes()),
        ensures
            dequeue_steps(
                *old(self),
                *final(self),
                *old(word),
                *final(word),
                old(memory).nodes(),
                final(memory).nodes(),
                step,
            ),
    {
        let state: usize = match self.state {
            None => {
                self.state = Some(*word);
                return DequeueStep::Continue;
            },
            Some(state) => state,
        };
        match self.phase {
            DequeuePhase::LockQueue => {
                if state & QUEUE_MASK == 0 || state & QUEUE_LOCK != 0 {
                    return DequeueStep::Done;
                }
                match compare_exchange(word, state, state | QUEUE_LOCK) {
                    Ok(_) => {
                        if self.sees_own_flag {
                            self.state = Some(state | QUEUE_LOCK);
                        }
                        self.phase = DequeuePhase::FindTail;
                    },
                    Err(seen) => {
                        self.state = Some(seen);
                    },
                }
                DequeueStep::Continue
            },
            DequeuePhase::FindTail => self.find_tail(state, word, memory),
            DequeuePhase::TakeLast(tail) => self.take_last(state, tail, word),
        }
    }

    /// Looks for the tail and takes it out, unless the lock is held.
    fn find_tail<M: Memory<Node>>(
        &mut self,
        state: usize,
        word: &mut usize,
        memory: &mut M,
    ) -> (step: DequeueStep)
        requires
            old(self).ready(old(memory).nodes()),
            old(self).state == Some(state),
            old(self).phase == DequeuePhase::FindTail,
        ensures
            dequeue_steps(
                *old(self),
                *final(self),
                *old(word),
                *final(word),
                old(memory).nodes(),
                final(memory).nodes(),
                step,
            ),
    {
        let head: usize = state & QUEUE_MASK;
        let ghost queue = queue::waiters(memory.nodes(), head);
        let tail = find_tail(memory, head);
        let ghost mid = memory.nodes();
        proof {
            queue::lone_tail(mid, head, queue);
        }
        if state & MUTEX_LOCK != 0 {
            return match compare_exchange(word, state, state & !QUEUE_LOCK) {
                Ok(_) => DequeueStep::Done,
                Err(seen) => {
                    self.state = Some(seen);
                    DequeueStep::Continue
                },
            };
        }
        let new_tail = memory.read(tail).prev;
        if new_tail == 0 {
            self.take_last(state, tail, word)
        } else {
            proof {
                queue::pop_shortens(mid, head, queue);
            }
            let node = memory.read(head);
            memory.write(
                head,
                Node { prev: node.prev, next: node.next, tail: new_tail, flags: node.flags },
            );
            *word = *word & !QUEUE_LOCK;
            assert(queue::relinked(old(memory).nodes(), mid, queue));
            DequeueStep::Wake(tail)
        }
    }

    /// Ends the queue together with its last node.
    fn take_last(&mut self, state: usize, tail: usize, word: &mut usize) -> (step: DequeueStep)
        requires
            old(self).state == Some(state),
        ensures
            *old(word) == state ==> {
                &&& step == DequeueStep::Wake(tail)
                &&& *final(self) == *old(self)
                &&& *final(word) == without_queue(state)
            },
            *old(word) != state ==> {
                &&& step == DequeueStep::Continue
                &&& *final(word) == *old(word)
                &&& *final(self) == (Dequeue {
                    state: Some(*old(word)),
                    phase: if head_of(*old(word)) != 0 {
                        DequeuePhase::FindTail
                    } else {
                        DequeuePhase::TakeLast(tail)
                    },
                    ..*old(self)
                })
            },
    {
        match compare_exchange(word, state, state & MUTEX_LOCK) {
            Ok(_) => DequeueStep::Wake(tail),
            Err(seen) => {
                self.state = Some(seen);
                self.phase = if seen & QUEUE_MASK != 0 {
                    DequeuePhase::FindTail
                } else {
                    DequeuePhase::TakeLast(tail)
                };
                DequeueStep::Continue
            },
        }
    }
}

/// Mutual exclusion, step by step: whatever a thread does on its way to a lock or
/// to waking another, the lock becomes held only by a thread that finds it free,
/// and no such step releases it.
pub proof fn only_acquiring_locks(word: usize, new_word: usize, nodes: Map<usize, Node>, new_nodes: Map<usize, Node>)
    ensures
        forall|a: Attempt, b: Attempt, step: AttemptStep| #[trigger]
            attempt_steps(a, b, word, new_word, nodes, new_nodes, step) && a.ready(nodes) ==> if step
                is Acquired {
                !is_locked(word) && is_locked(new_word)
            } else {
                is_locked(new_word) == is_locked(word)
            },
        forall|d: Dequeue, e: Dequeue, step: DequeueStep| #[trigger]
            dequeue_steps(d, e, word, new_word, nodes, new_nodes, step) ==> is_locked(new_word)
                == is_locked(word),
{
    assert forall|a: Attempt, b: Attempt, step: AttemptStep| #[trigger]
        attempt_steps(a, b, word, new_word, nodes, new_nodes, step) && a.ready(nodes) implies if step
        is Acquired {
        !is_locked(word) && is_locked(new_word)
    } else {
        is_locked(new_word) == is_locked(word)
    } by {
        word_fields(word, if a.node is Some {
            a.node->0
        } else {
            0
        });
    }
    word_fields(word, 0);
}

} // verus!
