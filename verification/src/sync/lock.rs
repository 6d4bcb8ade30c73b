//! A mutex of one word whose lowest byte tells whether it is held.
//!
//! The byte can be changed on its own, so that getting and releasing a lock
//! that others wait for do not have to compare the rest of the word. At most
//! one woken thread at a time is on its way to the lock: the word keeps the
//! flag `WAKING` until that thread runs.
use crate::event::YieldContext;
use crate::lock_word::compare_exchange;
use crate::queue;
use crate::queue::{find_tail, Node, Memory};
use vstd::prelude::*;

verus! {

/// The value of the lowest byte of a free lock.
pub const UNLOCKED: usize = 0;

/// The value of the lowest byte of a held lock.
pub const LOCKED: usize = 1;

/// The bits of the lowest byte.
pub const BYTE: usize = 255;

/// A thread is being woken.
pub const WAKING: usize = 256;

/// The bits of the address of the newest waiting node.
pub const MASK: usize = !(512 - 1);

/// The lock is held.
pub open spec fn is_locked(word: usize) -> bool {
    word & LOCKED != 0
}

/// The lowest byte is that of a free lock.
pub open spec fn byte_is_unlocked(word: usize) -> bool {
    word & BYTE == UNLOCKED
}

/// A thread is being woken.
pub open spec fn is_waking(word: usize) -> bool {
    word & WAKING != 0
}

/// The address of the newest waiting node, or null.
pub open spec fn head_of(word: usize) -> usize {
    word & MASK
}

/// An address that leaves room for the flags.
pub open spec fn is_address(node: usize) -> bool {
    node != 0 && node & !MASK == 0
}

/// The word with the lock held.
pub open spec fn with_lock(word: usize) -> usize {
    word | LOCKED
}

/// The word with its lowest byte that of a free lock.
pub open spec fn with_unlocked_byte(word: usize) -> usize {
    word & !BYTE
}

/// The word while a thread is being woken.
pub open spec fn with_waking(word: usize) -> usize {
    word | WAKING
}

/// The word when no thread is being woken.
pub open spec fn without_waking(word: usize) -> usize {
    word & !WAKING
}

/// The word with the lock as it is and nothing else.
pub open spec fn only_lock(word: usize) -> usize {
    word & LOCKED
}

/// The word with another newest node.
pub open spec fn with_head(word: usize, node: usize) -> usize {
    (word & !MASK) | node
}

/// The lowest byte holds the lock and nothing else.
pub open spec fn is_word(word: usize) -> bool {
    word & BYTE == UNLOCKED || word & BYTE == LOCKED
}

/// Each change of a word touches the fields that its name tells, and no other.
pub proof fn word_fields(w: usize, node: usize)
    by (bit_vector)
    requires
        is_word(w),
    ensures
        byte_is_unlocked(w) == !is_locked(w),
        is_word(with_lock(w)),
        is_locked(with_lock(w)),
        is_waking(with_lock(w)) == is_waking(w),
        head_of(with_lock(w)) == head_of(w),
        is_word(with_unlocked_byte(w)),
        !is_locked(with_unlocked_byte(w)),
        is_waking(with_unlocked_byte(w)) == is_waking(w),
        head_of(with_unlocked_byte(w)) == head_of(w),
        is_word(with_waking(w)),
        is_waking(with_waking(w)),
        is_locked(with_waking(w)) == is_locked(w),
        head_of(with_waking(w)) == head_of(w),
        is_word(without_waking(w)),
        !is_waking(without_waking(w)),
        is_locked(without_waking(w)) == is_locked(w),
        head_of(without_waking(w)) == head_of(w),
        is_word(only_lock(w)),
        !is_waking(only_lock(w)),
        is_locked(only_lock(w)) == is_locked(w),
        head_of(only_lock(w)) == 0,
        is_address(node) ==> is_word(with_head(w, node)),
        is_address(node) ==> head_of(with_head(w, node)) == node,
        is_address(node) ==> is_locked(with_head(w, node)) == is_locked(w),
        is_address(node) ==> is_waking(with_head(w, node)) == is_waking(w),
        head_of(w) != 0 ==> is_address(head_of(w)),
{
}

/// A free lock that nobody waits for is the word zero.
pub proof fn zero_is_free()
    by (bit_vector)
    ensures
        is_word(0usize),
        !is_locked(0usize),
        !is_waking(0usize),
        head_of(0usize) == 0,
{
}

/// A word-sized mutex. Each method is one atomic step on the word.
pub struct Lock {
    pub state: usize,
}

/// A thread that tries to get the lock.
#[derive(Clone, Copy, PartialEq, Eq, Debug, Structural)]
pub struct LockAttempt {
    /// The word as the thread has seen it last, or `None` if it must look.
    pub state: Option<usize>,
    /// How often the thread has yielded since it began or was woken.
    pub spin: usize,
    /// The thread was told to block on the word it has seen.
    pub refused: bool,
    /// The node under which the thread waits, once it has one.
    pub node: Option<usize>,
}

/// What came of one step towards the lock.
#[derive(Clone, Copy, PartialEq, Eq, Debug, Structural)]
pub enum LockStep {
    /// The lock is held.
    Acquired,
    /// There is more to do.
    Continue,
    /// The thread is to ask whether it may yield rather than block.
    Yield(YieldContext),
    /// The thread needs a node before it goes on.
    NeedNode,
    /// The node of the thread is in the queue and the thread is to block.
    Wait,
}

/// One step of `before` on the word and the nodes.
pub open spec fn lock_steps(
    before: LockAttempt,
    after: LockAttempt,
    word: usize,
    new_word: usize,
    nodes: Map<usize, Node>,
    new_nodes: Map<usize, Node>,
    step: LockStep,
) -> bool {
    match before.state {
        // The thread looks at the word.
        None => {
            &&& step == LockStep::Continue
            &&& after == (LockAttempt { state: Some(word), refused: false, ..before })
            &&& new_word == word
            &&& new_nodes == nodes
        },
        Some(state) => if !is_locked(state) {
            // The lock was free.
            &&& new_nodes == nodes
            &&& if byte_is_unlocked(word) {
                &&& step == LockStep::Acquired
                &&& after == before
                &&& new_word == with_lock(word)
            } else {
                &&& step == LockStep::Continue
                &&& after == (LockAttempt { state: None, ..before })
                &&& new_word == word
            }
        } else if !before.refused {
            &&& step == LockStep::Yield(
                YieldContext { contended: head_of(state) != 0, iteration: before.spin },
            )
            &&& after == before
            &&& new_word == word
            &&& new_nodes == nodes
        } else {
            match before.node {
                None => {
                    &&& step == LockStep::NeedNode
                    &&& after == before
                    &&& new_word == word
                    &&& new_nodes == nodes
                },
                Some(node) => {
                    &&& new_nodes == nodes.insert(
                        node,
                        queue::pushed(nodes[node], node, head_of(state)),
                    )
                    &&& if word == state {
                        &&& step == LockStep::Wait
                        &&& after == before
                        &&& new_word == with_head(state, node)
                    } else {
                        &&& step == LockStep::Continue
                        &&& after == (LockAttempt { state: Some(word), refused: false, ..before })
                        &&& new_word == word
                    }
                },
            }
        },
    }
}

/// What a woken thread does first: its node loses its back link, and if the
/// waking thread has left it to, it lets another thread be woken.
pub open spec fn wake_up(
    before: LockAttempt,
    after: LockAttempt,
    word: usize,
    new_word: usize,
    nodes: Map<usize, Node>,
    new_nodes: Map<usize, Node>,
) -> bool {
    before.node matches Some(node) && {
        let clears = nodes[node].flags != 0;
        &&& new_nodes == nodes.insert(node, Node { prev: 0, flags: 0, ..nodes[node] })
        &&& new_word == (if clears {
            without_waking(word)
        } else {
            word
        })
        &&& after == (LockAttempt { state: Some(new_word), spin: 0, refused: false, ..before })
    }
}

impl LockAttempt {
    /// The thread may take a step: a node it has is one of the memory, with
    /// room for the flags in its address.
    pub open spec fn ready(self, nodes: Map<usize, Node>) -> bool {
        self.node matches Some(node) ==> is_address(node) && nodes.contains_key(node)
    }

    /// A thread that has not yet looked at the word.
    pub fn new() -> (attempt: Self)
        ensures
            attempt == (LockAttempt { state: None, spin: 0, refused: false, node: None }),
    {
        LockAttempt { state: None, spin: 0, refused: false, node: None }
    }

    /// Gives the thread a node that is in no queue.
    pub fn set_node(&mut self, node: usize)
        ensures
            *final(self) == (LockAttempt { node: Some(node), ..*old(self) }),
    {
        self.node = Some(node);
    }

    /// Tells the thread whether it may yield rather than block.
    pub fn yielded(&mut self, allowed: bool)
        ensures
            *final(self) == (if allowed {
                LockAttempt {
                    state: None,
                    spin: if old(self).spin == usize::MAX {
                        0
                    } else {
                        (old(self).spin + 1) as usize
                    },
                    ..*old(self)
                }
            } else {
                LockAttempt { refused: true, ..*old(self) }
            }),
    {
        if allowed {
            self.spin = self.spin.wrapping_add(1);
            self.state = None;
        } else {
            self.refused = true;
        }
    }

    /// Goes on with the word that is there.
    fn saw(&mut self, word: usize) -> (step: LockStep)
        ensures
            step == LockStep::Continue,
            *final(self) == (LockAttempt { state: Some(word), refused: false, ..*old(self) }),
    {
        self.state = Some(word);
        self.refused = false;
        LockStep::Continue
    }
}

/// Where a thread is on its way to wake another.
#[derive(Clone, Copy, PartialEq, Eq, Debug, Structural)]
pub enum WakePhase {
    /// It looks whether anybody waits.
    Check,
    /// It needs the right to wake.
    TakeRight,
    /// It holds the right to wake and looks for the tail.
    FindTail,
    /// It takes out this node, which was alone in the queue.
    TakeLast(usize),
}

/// A thread that wakes another after it has released the lock.
#[derive(Clone, Copy, PartialEq, Eq, Debug, Structural)]
pub struct WakeAttempt {
    /// The word as the thread has seen it last, or `None` if it must look.
    pub state: Option<usize>,
    pub phase: WakePhase,
}

/// What came of one step towards waking a thread.
#[derive(Clone, Copy, PartialEq, Eq, Debug, Structural)]
pub enum WakeStep {
    /// There is more to do.
    Continue,
    /// Another thread will do the waking, or there is nobody to wake.
    Done,
    /// This node has left the queue and its event is to be set.
    Wake(usize),
}

/// One step of `before` on the word and the nodes.
pub open spec fn wake_steps(
    before: WakeAttempt,
    after: WakeAttempt,
    word: usize,
    new_word: usize,
    nodes: Map<usize, Node>,
    new_nodes: Map<usize, Node>,
    step: WakeStep,
) -> bool {
    match before.state {
        // The thread looks at the word.
        None => {
            &&& new_word == word
            &&& new_nodes == nodes
            &&& if before.phase == WakePhase::Check && head_of(word) == 0 {
                &&& step == WakeStep::Done
                &&& after == before
            } else if before.phase == WakePhase::Check {
                &&& step == WakeStep::Continue
                &&& after == (WakeAttempt { state: None, phase: WakePhase::TakeRight })
            } else {
                &&& step == WakeStep::Continue
                &&& after == (WakeAttempt { state: Some(word), ..before })
            }
        },
        Some(state) => match before.phase {
            WakePhase::Check | WakePhase::TakeRight => {
                &&& new_nodes == nodes
                &&& if head_of(state) == 0 || is_waking(state) || is_locked(state) {
                    &&& step == WakeStep::Done
                    &&& after == before
                    &&& new_word == word
                } else if word == state {
                    &&& step == WakeStep::Continue
                    &&& after == (WakeAttempt {
                        state: Some(with_waking(state)),
                        phase: WakePhase::FindTail,
                    })
                    &&& new_word == with_waking(state)
                } else {
                    &&& step == WakeStep::Continue
                    &&& after == (WakeAttempt { state: Some(word), phase: WakePhase::TakeRight })
                    &&& new_word == word
                }
            },
            WakePhase::FindTail => {
                let head = head_of(state);
                let queue = queue::waiters(nodes, head);
                if is_locked(state) || queue.len() == 1 {
                    &&& queue::relinked(nodes, new_nodes, queue)
                    &&& queue::linked(new_nodes, queue)
                    &&& queue::is_queue(new_nodes, head, queue)
                    &&& if is_locked(state) && word == state {
                        // The holder of the lock will wake the tail.
                        &&& step == WakeStep::Done
                        &&& after == before
                        &&& new_word == without_waking(state)
                    } else if word == state {
                        // The tail is alone and the queue ends.
                        &&& step == WakeStep::Wake(queue.last())
                        &&& after == before
                        &&& new_word == only_lock(state)
                    } else {
                        &&& step == WakeStep::Continue
                        &&& after == (WakeAttempt {
                            state: Some(word),
                            phase: if is_locked(state) || head_of(word) != 0 {
                                WakePhase::FindTail
                            } else {
                                WakePhase::TakeLast(queue.last())
                            },
                        })
                        &&& new_word == word
                    }
                } else {
                    // The tail leaves and takes the right to wake with it.
                    &&& step == WakeStep::Wake(queue.last())
                    &&& after == before
                    &&& new_word == word
                    &&& exists|mid: Map<usize, Node>| #[trigger]
                        queue::relinked(nodes, mid, queue) && queue::linked(mid, queue) && new_nodes
                            == handed_over(mid, head, queue)
                    &&& queue::is_queue(new_nodes, head, queue.drop_last())
                }
            },
            WakePhase::TakeLast(tail) => {
                &&& new_nodes == nodes
                &&& if word == state {
                    &&& step == WakeStep::Wake(tail)
                    &&& after == before
                    &&& new_word == only_lock(state)
                } else {
                    &&& step == WakeStep::Continue
                    &&& after == (WakeAttempt {
                        state: Some(word),
                        phase: if head_of(word) != 0 {
                            WakePhase::FindTail
                        } else {
                            before.phase
                        },
                    })
                    &&& new_word == word
                }
            },
        },
    }
}

/// The nodes when the tail has left the queue with the right to wake.
pub open spec fn handed_over(nodes: Map<usize, Node>, head: usize, queue: Seq<usize>) -> Map<usize, Node> {
    nodes.insert(head, queue::shortened(nodes[head], queue[queue.len() - 2])).insert(
        queue.last(),
        Node { flags: 1, ..nodes[queue.last()] },
    )
}

impl WakeAttempt {
    /// The thread may take a step: while it looks for the tail, what it has
    /// seen leads to a queue.
    pub open spec fn ready(self, nodes: Map<usize, Node>) -> bool {
        self.phase == WakePhase::FindTail ==> (self.state matches Some(state) ==> head_of(state)
            != 0 && queue::has_queue(nodes, head_of(state)))
    }
}

impl Lock {
    /// A free lock.
    pub fn new() -> (lock: Self)
        ensures
            lock.state == 0,
    {
        Lock { state: UNLOCKED }
    }

    /// Tells whether the lock is held.
    pub fn locked(&self) -> (held: bool)
        ensures
            held == is_locked(self.state),
    {
        self.state & LOCKED != 0
    }

    /// Takes the lock if it is free, even if others wait for it.
    pub fn try_lock(&mut self) -> (acquired: bool)
        ensures
            acquired == byte_is_unlocked(old(self).state),
            final(self).state == (if acquired {
                with_lock(old(self).state)
            } else {
                old(self).state
            }),
    {
        if self.state & BYTE == UNLOCKED {
            self.state = self.state | LOCKED;
            true
        } else {
            false
        }
    }

    /// Takes the lock if it is free. Otherwise an attempt comes back, with
    /// which the thread goes on in `lock_slow`.
    pub fn lock(&mut self) -> (attempt: Option<LockAttempt>)
        ensures
            byte_is_unlocked(old(self).state) ==> attempt is None && final(self).state == with_lock(
                old(self).state,
            ),
            !byte_is_unlocked(old(self).state) ==> final(self).state == old(self).state && attempt
                == Some(LockAttempt { state: None, spin: 0, refused: false, node: None }),
    {
        if self.try_lock() {
            None
        } else {
            Some(LockAttempt::new())
        }
    }

    /// Takes one step towards the lock.
    pub fn lock_slow<M: Memory<Node>>(
        &mut self,
        attempt: &mut LockAttempt,
        memory: &mut M,
    ) -> (step: LockStep)
        requires
            old(attempt).ready(old(memory).nodes()),
        ensures
            lock_steps(
                *old(attempt),
                *final(attempt),
                old(self).state,
                final(self).state,
                old(memory).nodes(),
                final(memory).nodes(),
                step,
            ),
    {
        let state: usize = match attempt.state {
            None => {
                return attempt.saw(self.state);
            },
            Some(state) => state,
        };
        // Try to get the lock if it is free.
        if state & LOCKED == 0 {
            if self.try_lock() {
                return LockStep::Acquired;
            }
            attempt.state = None;
            return LockStep::Continue;
        }
        // Yield if the event deems it appropriate.
        let head: usize = state & MASK;
        if !attempt.refused {
            return LockStep::Yield(YieldContext { contended: head != 0, iteration: attempt.spin });
        }
        let address: usize = match attempt.node {
            None => {
                return LockStep::NeedNode;
            },
            Some(address) => address,
        };
        // The first node is its own tail. The tail of any other is found by
        // the thread that wakes.
        let node = memory.read(address);
        let tail: usize = if head == 0 {
            address
        } else {
            0
        };
        memory.write(address, Node { prev: node.prev, next: head, tail, flags: node.flags });
        match compare_exchange(&mut self.state, state, (state & !MASK) | address) {
            Ok(_) => LockStep::Wait,
            Err(seen) => attempt.saw(seen),
        }
    }

    /// Goes on after the thread was woken.
    pub fn lock_woken<M: Memory<Node>>(&mut self, attempt: &mut LockAttempt, memory: &mut M)
        requires
            old(attempt).ready(old(memory).nodes()),
            old(attempt).node is Some,
        ensures
            wake_up(
                *old(attempt),
                *final(attempt),
                old(self).state,
                final(self).state,
                old(memory).nodes(),
                final(memory).nodes(),
            ),
    {
        if let Some(address) = attempt.node {
            let node = memory.read(address);
            memory.write(address, Node { prev: 0, next: node.next, tail: node.tail, flags: 0 });
            if node.flags != 0 {
                self.state = self.state & !WAKING;
            }
            attempt.spin = 0;
            attempt.saw(self.state);
        }
    }

    /// Releases the lock. The thread goes on in `unlock_slow` with the value
    /// that comes back.
    pub fn unlock(&mut self) -> (wake: WakeAttempt)
        ensures
            final(self).state == with_unlocked_byte(old(self).state),
            wake == (WakeAttempt { state: None, phase: WakePhase::Check }),
    {
        self.state = self.state & !BYTE;
        WakeAttempt { state: None, phase: WakePhase::Check }
    }

    /// Takes one step towards waking the first waiting thread.
    pub fn unlock_slow<M: Memory<Node>>(
        &mut self,
        wake: &mut WakeAttempt,
        memory: &mut M,
    ) -> (step: WakeStep)
        requires
            old(wake).ready(old(memory).nodes()),
        ensures
            wake_steps(
                *old(wake),
                *final(wake),
                old(self).state,
                final(self).state,
                old(memory).nodes(),
                final(memory).nodes(),
                step,
            ),
    {
        let state: usize = match wake.state {
            None => {
                if let WakePhase::Check = wake.phase {
                    if self.state & MASK == 0 {
                        return WakeStep::Done;
                    }
                    wake.phase = WakePhase::TakeRight;
                } else {
                    wake.state = Some(self.state);
                }
                return WakeStep::Continue;
            },
            Some(state) => state,
        };
        match wake.phase {
            WakePhase::Check | WakePhase::TakeRight => {
                // Leave it to the holder of the lock or to the thread that is
                // waking already.
                if state & MASK == 0 || state & (WAKING | LOCKED) != 0 {
                    proof {
                        flags_together(state);
                    }
                    return WakeStep::Done;
                }
                proof {
                    flags_together(state);
                }
                match compare_exchange(&mut self.state, state, state | WAKING) {
                    Ok(_) => {
                        wake.state = Some(state | WAKING);
                        wake.phase = WakePhase::FindTail;
                    },
                    Err(seen) => {
                        wake.state = Some(seen);
                        wake.phase = WakePhase::TakeRight;
                    },
                }
                WakeStep::Continue
            },
            WakePhase::FindTail => self.take_tail(state, wake, memory),
            WakePhase::TakeLast(tail) => self.take_last(state, tail, wake),
        }
    }

    /// Looks for the tail and takes it out, unless the lock is held.
    fn take_tail<M: Memory<Node>>(
        &mut self,
        state: usize,
        wake: &mut WakeAttempt,
        memory: &mut M,
    ) -> (step: WakeStep)
        requires
            old(wake).ready(old(memory).nodes()),
            old(wake).state == Some(state),
            old(wake).phase == WakePhase::FindTail,
        ensures
            wake_steps(
                *old(wake),
                *final(wake),
                old(self).state,
                final(self).state,
                old(memory).nodes(),
                final(memory).nodes(),
                step,
            ),
    {
        let head: usize = state & MASK;
        let ghost queue = queue::waiters(memory.nodes(), head);
        let tail = find_tail(memory, head);
        let ghost mid = memory.nodes();
        proof {
            queue::lone_tail(mid, head, queue);
        }
        if state & LOCKED != 0 {
            return match compare_exchange(&mut self.state, state, state & !WAKING) {
                Ok(_) => WakeStep::Done,
                Err(seen) => {
                    wake.state = Some(seen);
                    WakeStep::Continue
                },
            };
        }
        let new_tail = memory.read(tail).prev;
        if new_tail == 0 {
            self.take_last(state, tail, wake)
        } else {
            proof {
                queue::pop_shortens(mid, head, queue);
                assert(queue[queue.len() - 1] != queue[0]);
            }
            let node = memory.read(head);
            memory.write(
                head,
                Node { prev: node.prev, next: node.next, tail: new_tail, flags: node.flags },
            );
            let ghost popped = memory.nodes();
            let last = memory.read(tail);
            memory.write(tail, Node { prev: last.prev, next: last.next, tail: last.tail, flags: 1 });
            proof {
                assert(queue::relinked(old(memory).nodes(), mid, queue));
                assert(memory.nodes() == handed_over(mid, head, queue));
                let shorter = queue.drop_last();
                assert forall|a: usize| shorter.contains(a) implies #[trigger] memory.nodes().contains_key(a) && memory.nodes()[a] == popped[a] by {
                    let i = choose|i: int| 0 <= i < shorter.len() && shorter[i] == a;
                    assert(queue[i] != queue[queue.len() - 1]);
                }
                crate::queue::queue_is_framed(popped, memory.nodes(), head, shorter);
            }
            WakeStep::Wake(tail)
        }
    }

    /// Ends the queue together with its last node.
    fn take_last(&mut self, state: usize, tail: usize, wake: &mut WakeAttempt) -> (step: WakeStep)
        requires
            old(wake).state == Some(state),
        ensures
            old(self).state == state ==> {
                &&& step == WakeStep::Wake(tail)
                &&& *final(wake) == *old(wake)
                &&& final(self).state == only_lock(state)
            },
            old(self).state != state ==> {
                &&& step == WakeStep::Continue
                &&& final(self).state == old(self).state
                &&& *final(wake) == (WakeAttempt {
                    state: Some(old(self).state),
                    phase: if head_of(old(self).state) != 0 {
                        WakePhase::FindTail
                    } else {
                        WakePhase::TakeLast(tail)
                    },
                })
            },
    {
        match compare_exchange(&mut self.state, state, state & LOCKED) {
            Ok(_) => WakeStep::Wake(tail),
            Err(seen) => {
                wake.state = Some(seen);
                wake.phase = if seen & MASK != 0 {
                    WakePhase::FindTail
                } else {
                    WakePhase::TakeLast(tail)
                };
                WakeStep::Continue
            },
        }
    }
}

proof fn flags_together(word: usize)
    by (bit_vector)
    ensures
        word & (WAKING | LOCKED) != 0 <==> is_waking(word) || is_locked(word),
{
}

} // verus!
