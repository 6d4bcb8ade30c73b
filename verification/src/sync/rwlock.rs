//! A reader-writer lock of one word whose waiting threads are queued.
use super::spin_wait::{SpinConfig, SpinWait};
use super::wait_node;
use super::wait_node::WaitNode;
use crate::queue;
use crate::queue::{Linked, Memory, Node};
use vstd::prelude::*;

verus! {

/// Threads may be queued.
pub const PARKED: usize = 1;

/// A writer holds the lock.
pub const WRITE: usize = 2;

/// What each reader that holds the lock counts for.
pub const READ: usize = 4;

/// What a queued thread waits for.
#[derive(Clone, Copy, PartialEq, Eq, Debug, Structural)]
pub enum Tag {
    Reader,
    Writer,
}

/// A writer holds the lock.
pub open spec fn is_written(state: usize) -> bool {
    state & WRITE != 0
}

/// Threads may be queued.
pub open spec fn is_parked(state: usize) -> bool {
    state & PARKED != 0
}

/// The number of readers that hold the lock.
pub open spec fn readers(state: usize) -> nat {
    (state / READ) as nat
}

/// The state is its two marks and its number of readers.
pub proof fn state_fields(s: usize)
    by (bit_vector)
    ensures
        s & WRITE != 0 <==> (s / 2) % 2 == 1,
        s & PARKED != 0 <==> s % 2 == 1,
        s & (WRITE | PARKED) == 0 <==> s & WRITE == 0 && s & PARKED == 0,
        (s | WRITE) & WRITE != 0,
        (s | WRITE) & PARKED == s & PARKED,
        (s | WRITE) / READ == s / READ,
        (s | PARKED) & PARKED != 0,
        (s | PARKED) & WRITE == s & WRITE,
        (s | PARKED) / READ == s / READ,
        0usize & WRITE == 0,
        0usize & PARKED == 0,
        WRITE & WRITE != 0,
        WRITE & PARKED == 0,
        PARKED & WRITE == 0,
        PARKED & PARKED != 0,
{
}

/// A reader comes or goes, and the marks stay.
pub proof fn reader_counts(s: usize)
    requires
        s + READ <= usize::MAX,
    ensures
        is_written((s + READ) as usize) == is_written(s),
        is_parked((s + READ) as usize) == is_parked(s),
        readers((s + READ) as usize) == readers(s) + 1,
{
    state_fields(s);
    state_fields((s + READ) as usize);
}

/// A thread that waits for the lock.
#[derive(Clone, Copy, PartialEq, Eq, Debug, Structural)]
pub struct RwAttempt {
    /// The state as the thread has seen it last, or `None` if it must look.
    pub state: Option<usize>,
    pub tag: Tag,
    pub spin_wait: SpinWait,
}

/// What came of one step towards the lock.
#[derive(Clone, Copy, PartialEq, Eq, Debug, Structural)]
pub enum RwStep {
    /// The lock is held.
    Acquired,
    /// There is more to do.
    Continue,
    /// There is more to do after a short spin.
    ForceSpin,
    /// The thread is to park.
    Park,
}

impl RwAttempt {
    /// The number of readers that a reader adds to is not the largest.
    pub open spec fn ready(self) -> bool {
        self.tag == Tag::Reader ==> (self.state matches Some(state) ==> !is_written(state) ==> state
            + READ <= usize::MAX)
    }

    /// A thread that has not yet looked at the state.
    pub fn new(tag: Tag) -> (attempt: Self)
        ensures
            attempt == (RwAttempt { state: None, tag, spin_wait: SpinWait { spin: 0 } }),
    {
        RwAttempt { state: None, tag, spin_wait: SpinWait::new() }
    }

    /// Goes on after the thread came back from parking or was not to park.
    pub fn resumed(&mut self)
        ensures
            *final(self) == (RwAttempt {
                state: None,
                spin_wait: SpinWait { spin: 0 },
                ..*old(self)
            }),
    {
        self.spin_wait.reset();
        self.state = None;
    }
}

/// A thread cannot take the lock: a writer holds it, or the thread is to write and
/// readers hold it.
pub open spec fn is_blocked(tag: Tag, state: usize) -> bool {
    is_written(state) || tag == Tag::Writer && readers(state) > 0
}

/// The state with one more holder.
pub open spec fn acquired(tag: Tag, state: usize) -> usize {
    match tag {
        Tag::Writer => state | WRITE,
        Tag::Reader => (state + READ) as usize,
    }
}

/// One step of `before` on the state.
pub open spec fn rw_steps(
    before: RwAttempt,
    after: RwAttempt,
    state: usize,
    new_state: usize,
    config: SpinConfig,
    step: RwStep,
) -> bool {
    match before.state {
        None => {
            &&& step == RwStep::Continue
            &&& after == (RwAttempt { state: Some(state), ..before })
            &&& new_state == state
        },
        Some(seen) => if !is_blocked(before.tag, seen) {
            if state == seen {
                &&& step == RwStep::Acquired
                &&& after == before
                &&& new_state == acquired(before.tag, seen)
            } else {
                &&& new_state == state
                &&& match before.tag {
                    Tag::Writer => step == RwStep::Continue && after == (RwAttempt {
                        state: Some(state),
                        ..before
                    }),
                    Tag::Reader => step == RwStep::ForceSpin && after == (RwAttempt {
                        state: None,
                        ..before
                    }),
                }
            }
        } else if is_parked(seen) {
            &&& step == RwStep::Park
            &&& after == before
            &&& new_state == state
        } else if before.spin_wait.spin < config.max_spin {
            &&& step == RwStep::Continue
            &&& after.state is None
            &&& after.tag == before.tag
            &&& after.spin_wait.spin == before.spin_wait.spin + 1
            &&& new_state == state
        } else if state == seen {
            &&& step == RwStep::Park
            &&& after == before
            &&& new_state == seen | PARKED
        } else {
            &&& step == RwStep::Continue
            &&& after == (RwAttempt { state: Some(state), ..before })
            &&& new_state == state
        },
    }
}

/// The thread that was queued first, if there is one.
pub open spec fn first_of(queue: Seq<usize>) -> Option<usize> {
    if queue.len() == 0 {
        None
    } else {
        Some(queue.last())
    }
}

/// The queue without the thread that was queued first.
pub open spec fn without_first(queue: Seq<usize>) -> Seq<usize> {
    if queue.len() == 0 {
        queue
    } else {
        queue.drop_last()
    }
}

/// At most the links of the nodes of `queue` differ.
pub open spec fn only_relinked(
    before: Map<usize, WaitNode<Tag>>,
    after: Map<usize, WaitNode<Tag>>,
    queue: Seq<usize>,
) -> bool {
    &&& after.dom() =~= before.dom()
    &&& forall|a: usize| !queue.contains(a) ==> #[trigger] after[a] == before[a]
    &&& forall|a: usize|
        (#[trigger] after[a]).tag == before[a].tag && after[a].state == before[a].state
}

/// A writer leaves, and the thread that was queued first leaves the queue. The lock is
/// free, with the mark as long as others are queued.
pub open spec fn writer_hands_on(
    queue: Seq<usize>,
    new_state: usize,
    new_queue: Seq<usize>,
    node: Option<usize>,
) -> bool {
    &&& node == first_of(queue)
    &&& new_queue == without_first(queue)
    &&& new_state == (if new_queue.len() == 0 {
        0
    } else {
        PARKED
    })
}

/// After the last reader has left, the thread that was queued first leaves the queue,
/// unless the lock was taken meanwhile or the mark is gone.
pub open spec fn reader_hands_on(
    state: usize,
    queue: Seq<usize>,
    new_state: usize,
    new_queue: Seq<usize>,
    node: Option<usize>,
) -> bool {
    if state != PARKED {
        node is None && new_state == state && new_queue == queue
    } else {
        writer_hands_on(queue, new_state, new_queue, node)
    }
}

/// A reader-writer lock. Each method is one atomic step on the state, or what a
/// thread does while it holds the lock of the queue.
#[derive(Clone, Copy, PartialEq, Eq, Debug, Structural)]
pub struct CoreRwLock {
    pub state: usize,
    /// The node that was pushed last, or null.
    pub queue: usize,
}

impl CoreRwLock {
    /// A free lock.
    pub fn new() -> (lock: Self)
        ensures
            lock.state == 0,
            lock.queue == 0,
    {
        CoreRwLock { state: 0, queue: 0 }
    }

    /// The queue is in order.
    pub open spec fn wf(self, nodes: Map<usize, WaitNode<Tag>>) -> bool {
        queue::has_queue(queue::links(nodes), self.queue)
    }

    /// The queued threads, from the one that came last to the one that came
    /// first.
    pub open spec fn waiting(self, nodes: Map<usize, WaitNode<Tag>>) -> Seq<usize> {
        queue::waiters(queue::links(nodes), self.queue)
    }

    /// Takes the lock for a writer if nobody holds it and nobody is queued.
    pub fn try_lock_exclusive(&mut self) -> (acquired: bool)
        ensures
            acquired == (old(self).state == 0),
            final(self).state == (if acquired {
                WRITE
            } else {
                old(self).state
            }),
            final(self).queue == old(self).queue,
    {
        if self.state == 0 {
            self.state = WRITE;
            true
        } else {
            false
        }
    }

    /// Takes the lock for a writer if nobody holds it and nobody is queued.
    /// Otherwise an attempt comes back, with which the thread goes on in
    /// `lock_exclusive_slow`.
    pub fn lock_exclusive(&mut self) -> (attempt: Option<RwAttempt>)
        ensures
            final(self).queue == old(self).queue,
            old(self).state == 0 ==> attempt is None && final(self).state == WRITE,
            old(self).state != 0 ==> final(self).state == old(self).state && attempt == Some(
                RwAttempt { state: None, tag: Tag::Writer, spin_wait: SpinWait { spin: 0 } },
            ),
    {
        if self.try_lock_exclusive() {
            None
        } else {
            Some(RwAttempt::new(Tag::Writer))
        }
    }

    /// Releases the lock of a writer if nobody is queued. Tells whether that was
    /// done. Otherwise the thread goes on with `unlock_exclusive_slow`.
    pub fn unlock_exclusive(&mut self) -> (done: bool)
        ensures
            done == (old(self).state == WRITE),
            final(self).state == (if done {
                0
            } else {
                old(self).state
            }),
            final(self).queue == old(self).queue,
    {
        if self.state == WRITE {
            self.state = 0;
            true
        } else {
            false
        }
    }

    /// Takes the thread that was queued first out of the queue, if there is one.
    fn take_first<M: Memory<WaitNode<Tag>>>(&mut self, memory: &mut M) -> (node: Option<usize>)
        requires
            old(self).wf(old(memory).nodes()),
        ensures
            final(self).wf(final(memory).nodes()),
            final(self).state == old(self).state,
            ({
                let queue = old(self).waiting(old(memory).nodes());
                &&& node == first_of(queue)
                &&& final(self).waiting(final(memory).nodes()) == without_first(queue)
                &&& final(self).queue == 0 <==> queue.len() <= 1
                &&& only_relinked(old(memory).nodes(), final(memory).nodes(), queue)
            }),
    {
        let ghost before = memory.nodes();
        let ghost queue = self.waiting(before);
        let head = self.queue;
        assert(queue::is_queue(queue::links(before), head, queue));
        if head == 0 {
            return None;
        }
        let tail = WaitNode::tail(memory, head);
        let ghost mid = memory.nodes();
        proof {
            assert(queue.contains(queue[0]));
            assert(queue::links(mid).contains_key(queue[queue.len() - 1]));
            queue::lone_tail(queue::links(mid), head, queue);
            search_keeps(before, mid, queue);
        }
        let new_tail = WaitNode::next(memory, tail);
        assert(new_tail == queue::links(mid)[tail].prev);
        WaitNode::pop(memory, head, new_tail);
        if new_tail == 0 {
            self.queue = 0;
            proof {
                if queue.len() > 1 {
                    wait_node::pop_shortens(mid, head, queue);
                    assert(queue[queue.len() - 2] != 0);
                }
                assert(queue.drop_last() =~= Seq::<usize>::empty());
                queue::waiters_of(queue::links(memory.nodes()), 0, Seq::<usize>::empty());
            }
        } else {
            proof {
                assert(queue.len() > 1) by {
                    if queue.len() == 1 {
                        assert(queue.last() == head);
                        assert(queue::links(mid)[head].prev == 0);
                    }
                }
                wait_node::pop_shortens(mid, head, queue);
            }
        }
        Some(tail)
    }

    /// Releases the lock of a writer and takes the thread that was queued first
    /// out of the queue, if there is one. That thread is to be notified.
    pub fn unlock_exclusive_slow<M: Memory<WaitNode<Tag>>>(&mut self, memory: &mut M) -> (node: Option<
        usize,
    >)
        requires
            old(self).wf(old(memory).nodes()),
        ensures
            final(self).wf(final(memory).nodes()),
            writer_hands_on(
                old(self).waiting(old(memory).nodes()),
                final(self).state,
                final(self).waiting(final(memory).nodes()),
                node,
            ),
            only_relinked(
                old(memory).nodes(),
                final(memory).nodes(),
                old(self).waiting(old(memory).nodes()),
            ),
    {
        let node = self.take_first(memory);
        self.state = if self.queue == 0 {
            0
        } else {
            PARKED
        };
        node
    }

    /// Takes the lock for a reader unless a writer holds it, a thread is queued,
    /// or there are too many readers.
    pub fn try_lock_shared_fast(&mut self) -> (acquired: bool)
        ensures
            acquired <==> !is_written(old(self).state) && !is_parked(old(self).state) && old(
                self,
            ).state + READ <= usize::MAX,
            final(self).state == (if acquired {
                (old(self).state + READ) as usize
            } else {
                old(self).state
            }),
            final(self).queue == old(self).queue,
    {
        proof {
            state_fields(self.state);
        }
        if self.state & (WRITE | PARKED) == 0 {
            if let Some(new_state) = self.state.checked_add(READ) {
                self.state = new_state;
                return true;
            }
        }
        false
    }

    /// Takes the lock for a reader unless a writer holds it or a thread is
    /// queued.
    pub fn try_lock_shared_slow(&mut self) -> (acquired: bool)
        requires
            !is_written(old(self).state) && !is_parked(old(self).state) ==> old(self).state + READ
                <= usize::MAX,
        ensures
            acquired <==> !is_written(old(self).state) && !is_parked(old(self).state),
            final(self).state == (if acquired {
                (old(self).state + READ) as usize
            } else {
                old(self).state
            }),
            final(self).queue == old(self).queue,
    {
        proof {
            state_fields(self.state);
        }
        if self.state & (WRITE | PARKED) == 0 {
            self.state = self.state + READ;
            true
        } else {
            false
        }
    }

    /// Takes the lock for a reader unless a writer holds it or a thread is
    /// queued.
    pub fn try_lock_shared(&mut self) -> (acquired: bool)
        requires
            !is_written(old(self).state) && !is_parked(old(self).state) ==> old(self).state + READ
                <= usize::MAX,
        ensures
            acquired <==> !is_written(old(self).state) && !is_parked(old(self).state),
            final(self).state == (if acquired {
                (old(self).state + READ) as usize
            } else {
                old(self).state
            }),
            final(self).queue == old(self).queue,
    {
        self.try_lock_shared_fast() || self.try_lock_shared_slow()
    }

    /// Takes the lock for a reader at once where that is possible. Otherwise an
    /// attempt comes back, with which the thread goes on in `lock_shared_slow`.
    pub fn lock_shared(&mut self) -> (attempt: Option<RwAttempt>)
        ensures
            final(self).queue == old(self).queue,
            attempt is None <==> !is_written(old(self).state) && !is_parked(old(self).state)
                && old(self).state + READ <= usize::MAX,
            attempt is None ==> final(self).state == old(self).state + READ,
            attempt matches Some(attempt) ==> final(self).state == old(self).state && attempt == (
            RwAttempt { state: None, tag: Tag::Reader, spin_wait: SpinWait { spin: 0 } }),
    {
        if self.try_lock_shared_fast() {
            None
        } else {
            Some(RwAttempt::new(Tag::Reader))
        }
    }

    /// Releases the lock of a reader. Tells whether that was all. Otherwise it was the
    /// last reader of a lock for which threads may be queued, and goes on with
    /// `unlock_shared_slow`.
    pub fn unlock_shared(&mut self) -> (done: bool)
        requires
            old(self).state >= READ,
        ensures
            done == (old(self).state != READ | PARKED),
            final(self).state == old(self).state - READ,
            final(self).queue == old(self).queue,
    {
        let state: usize = self.state;
        self.state = state - READ;
        state != READ | PARKED
    }

    /// Takes the thread that was queued first out of the queue, if there is one and
    /// nobody has taken the lock meanwhile. That thread is to be notified.
    pub fn unlock_shared_slow<M: Memory<WaitNode<Tag>>>(&mut self, memory: &mut M) -> (node: Option<
        usize,
    >)
        requires
            old(self).wf(old(memory).nodes()),
        ensures
            final(self).wf(final(memory).nodes()),
            reader_hands_on(
                old(self).state,
                old(self).waiting(old(memory).nodes()),
                final(self).state,
                final(self).waiting(final(memory).nodes()),
                node,
            ),
            only_relinked(
                old(memory).nodes(),
                final(memory).nodes(),
                old(self).waiting(old(memory).nodes()),
            ),
    {
        if self.state != PARKED {
            return None;
        }
        let node = self.take_first(memory);
        if self.queue == 0 {
            self.state = 0;
        }
        node
    }

    /// Takes one step towards the lock.
    pub fn lock_common(&mut self, attempt: &mut RwAttempt, config: SpinConfig) -> (step: RwStep)
        requires
            old(attempt).ready(),
            config.is_bounded(),
        ensures
            rw_steps(*old(attempt), *final(attempt), old(self).state, final(self).state, config, step),
            final(self).queue == old(self).queue,
    {
        let seen: usize = match attempt.state {
            None => {
                attempt.state = Some(self.state);
                return RwStep::Continue;
            },
            Some(seen) => seen,
        };
        let blocked = seen & WRITE != 0 || (attempt.tag == Tag::Writer && seen / READ > 0);
        if !blocked {
            let new_state = match attempt.tag {
                Tag::Writer => seen | WRITE,
                Tag::Reader => seen + READ,
            };
            if self.state == seen {
                self.state = new_state;
                return RwStep::Acquired;
            }
            match attempt.tag {
                Tag::Writer => {
                    attempt.state = Some(self.state);
                    return RwStep::Continue;
                },
                Tag::Reader => {
                    attempt.state = None;
                    return RwStep::ForceSpin;
                },
            }
        }
        if seen & PARKED == 0 {
            if attempt.spin_wait.spin(config) {
                attempt.state = None;
                return RwStep::Continue;
            }
            if self.state != seen {
                attempt.state = Some(self.state);
                return RwStep::Continue;
            }
            self.state = seen | PARKED;
        }
        RwStep::Park
    }

    /// Takes one step of a writer towards the lock.
    pub fn lock_exclusive_slow(&mut self, attempt: &mut RwAttempt, config: SpinConfig) -> (step: RwStep)
        requires
            old(attempt).tag == Tag::Writer,
            config.is_bounded(),
        ensures
            rw_steps(*old(attempt), *final(attempt), old(self).state, final(self).state, config, step),
            final(attempt).tag == Tag::Writer,
            final(self).queue == old(self).queue,
    {
        self.lock_common(attempt, config)
    }

    /// Takes one step of a reader towards the lock.
    pub fn lock_shared_slow(&mut self, attempt: &mut RwAttempt, config: SpinConfig) -> (step: RwStep)
        requires
            old(attempt).tag == Tag::Reader,
            old(attempt).ready(),
            config.is_bounded(),
        ensures
            rw_steps(*old(attempt), *final(attempt), old(self).state, final(self).state, config, step),
            final(attempt).tag == Tag::Reader,
            final(self).queue == old(self).queue,
    {
        self.lock_common(attempt, config)
    }

    /// Puts the thread's node in front of the queue, unless the mark for that is gone.
    /// Tells whether the thread is to wait. Either way it then goes on with
    /// `RwAttempt::resumed`.
    pub fn park<M: Memory<WaitNode<Tag>>>(&mut self, memory: &mut M, address: usize) -> (parked: bool)
        requires
            old(self).wf(old(memory).nodes()),
            address != 0,
            old(memory).nodes().contains_key(address),
            !old(self).waiting(old(memory).nodes()).contains(address),
            old(memory).nodes()[address].state == wait_node::State::Uninit
                || old(memory).nodes()[address].node.prev == 0,
        ensures
            final(self).wf(final(memory).nodes()),
            final(self).state == old(self).state,
            parked == is_parked(old(self).state),
            !parked ==> final(self).queue == old(self).queue && final(memory).nodes()
                == old(memory).nodes(),
            parked ==> {
                &&& final(self).queue == address
                &&& final(self).waiting(final(memory).nodes()) == seq![address] + old(
                    self,
                ).waiting(old(memory).nodes())
                &&& final(memory).nodes() == old(memory).nodes().insert(
                    address,
                    wait_node::pushed(old(memory).nodes()[address], address, old(self).queue),
                )
            },
    {
        proof {
            wait_node::push_extends(memory.nodes(), self.queue, address);
        }
        if self.state & PARKED == 0 {
            return false;
        }
        let head = self.queue;
        let (new_head, _is_new) = WaitNode::push(memory, address, head);
        self.queue = new_head;
        true
    }
}

/// A search for the tail changes neither tags nor states.
proof fn search_keeps(
    before: Map<usize, WaitNode<Tag>>,
    after: Map<usize, WaitNode<Tag>>,
    queue: Seq<usize>,
)
    requires
        exists|known: int|
            queue::chained(queue::links(before), queue, known) && #[trigger] queue::searched(
                before,
                after,
                queue,
                known,
            ),
    ensures
        after.dom() =~= before.dom(),
        forall|a: usize| !queue.contains(a) ==> #[trigger] after[a] == before[a],
        forall|a: usize|
            (#[trigger] after[a]).tag == before[a].tag && after[a].state == before[a].state,
{
    let known = choose|known: int|
        queue::chained(queue::links(before), queue, known) && #[trigger] queue::searched(
            before,
            after,
            queue,
            known,
        );
    assert forall|a: usize|
        (#[trigger] after[a]).tag == before[a].tag && after[a].state == before[a].state by {
        if queue.contains(a) {
            let i = choose|i: int| 0 <= i < queue.len() && queue[i] == a;
            if i == 0 {
                assert(after[queue[0]].tag == before[queue[0]].tag);
            } else if i <= known {
                assert(after[queue[i]] == before[queue[i]].relink(
                    Node { prev: queue[i - 1], ..before[queue[i]].node() },
                ));
            } else {
                assert(after[queue[i]] == before[queue[i]]);
            }
        }
    }
}

} // verus!
