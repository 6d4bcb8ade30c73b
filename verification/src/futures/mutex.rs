//! A mutex for tasks that can hand itself over.
use crate::lock_word;
use crate::lock_word::{Attempt, AttemptStep, Backoff, Dequeue, MUTEX_LOCK};
use crate::queue;
use crate::queue::{Memory, Node};
use crate::shared::event::WAIT_NODE_INIT;
use crate::shared::lock;
use crate::shared::lock::{FairStep, FairUnlock, Removal, RemoveStep, WordLock, WAIT_NODE_HANDOFF};
use vstd::prelude::*;

verus! {

/// A mutual exclusion primitive useful for protecting shared data.
pub struct Mutex<T> {
    pub value: T,
    pub lock: WordLock,
}

impl<T: Default> Default for Mutex<T> {
    fn default() -> (mutex: Self)
        ensures
            mutex.lock.state == 0,
            T::default.ensures((), mutex.value),
    {
        Mutex::new(T::default())
    }
}

impl<T> Mutex<T> {
    /// Creates a new futures-aware mutex.
    pub fn new(value: T) -> (mutex: Self)
        ensures
            mutex.lock.state == 0,
            mutex.value == value,
    {
        Mutex { value, lock: WordLock::new() }
    }

    /// Creates a new futures-aware mutex.
    pub fn from(value: T) -> (mutex: Self)
        ensures
            mutex.lock.state == 0,
            mutex.value == value,
    {
        Mutex::new(value)
    }

    /// Consumes this mutex, returning the underlying data.
    pub fn into_inner(self) -> (value: T)
        ensures
            value == self.value,
    {
        self.value
    }

    /// Returns a mutable reference to the underlying data.
    pub fn get_mut(&mut self) -> (value: &mut T)
        ensures
            *value == old(self).value,
            *final(self) == (Mutex { value: *final(value), lock: old(self).lock }),
    {
        &mut self.value
    }

    /// Tries to acquire the mutex.
    pub fn try_lock(&mut self) -> (acquired: bool)
        ensures
            acquired == (old(self).lock.state == 0),
            final(self).value == old(self).value,
            final(self).lock.state == (if acquired {
                MUTEX_LOCK
            } else {
                old(self).lock.state
            }),
    {
        self.lock.try_lock()
    }

    /// A task that wants the mutex, with its node at `node`.
    pub fn lock(&self, node: usize) -> (future: MutexFutureLock)
        ensures
            future == (MutexFutureLock { is_acquired: false, node }),
    {
        MutexFutureLock { is_acquired: false, node }
    }
}

/// The node of a task that is woken, which may be enqueued again.
pub open spec fn woken(node: Node) -> Node {
    Node { flags: node.flags & !WAIT_NODE_INIT, ..node }
}

/// A woken node is not ready any more, and knows whether the lock was handed over.
pub proof fn woken_fields(flags: u8)
    by (bit_vector)
    ensures
        (flags & !WAIT_NODE_INIT) & WAIT_NODE_INIT == 0,
        (flags & !WAIT_NODE_INIT) & 2 == flags & 2,
{
}

/// Prepares the node of a task that is to be woken.
pub fn wake_node<M: Memory<Node>>(memory: &mut M, address: usize)
    requires
        old(memory).nodes().contains_key(address),
    ensures
        final(memory).nodes() == old(memory).nodes().insert(
            address,
            woken(old(memory).nodes()[address]),
        ),
{
    let node = memory.read(address);
    memory.write(
        address,
        Node {
            prev: node.prev,
            next: node.next,
            tail: node.tail,
            flags: node.flags & !WAIT_NODE_INIT,
        },
    );
}

/// A task that wants the mutex.
#[derive(Clone, Copy, PartialEq, Eq, Debug, Structural)]
pub struct MutexFutureLock {
    pub is_acquired: bool,
    pub node: usize,
}

/// What a task that wants a lock gets when it is polled: nothing more to do if it
/// has the lock, or else an attempt.
pub open spec fn poll_starts(
    lock: WordLock,
    new_lock: WordLock,
    node: Node,
    address: usize,
    attempt: Option<Attempt>,
) -> bool {
    &&& attempt is None <==> lock::is_handed(node) || lock.state == 0
    &&& new_lock.state == (if !lock::is_handed(node) && lock.state == 0 {
        MUTEX_LOCK
    } else {
        lock.state
    })
    &&& attempt matches Some(attempt) ==> attempt == (Attempt {
        state: None,
        spin: 0,
        refused: false,
        node: if lock::is_ready(node) {
            Some(address)
        } else {
            None
        },
        queued: lock::is_ready(node),
        backoff: Backoff::Double(0),
    })
}

impl MutexFutureLock {
    /// Tells whether the task is done.
    pub fn is_terminated(&self) -> (done: bool)
        ensures
            done == self.is_acquired,
    {
        self.is_acquired
    }

    /// Polls the task. If the mutex cannot be had at once, an attempt comes back,
    /// with which the task goes on in `lock_slow`.
    pub fn poll<M: Memory<Node>>(&mut self, lock: &mut WordLock, memory: &M) -> (attempt: Option<Attempt>)
        requires
            !old(self).is_acquired,
            memory.nodes().contains_key(old(self).node),
        ensures
            poll_starts(
                *old(lock),
                *final(lock),
                memory.nodes()[old(self).node],
                old(self).node,
                attempt,
            ),
            final(self).node == old(self).node,
            final(self).is_acquired == (attempt is None),
    {
        let attempt = lock.lock(0, memory, self.node);
        self.is_acquired = attempt.is_none();
        attempt
    }

    /// Takes one step towards the mutex. The task is pending once its node is in
    /// the queue. Once it has the mutex, it does what `leave_queue` tells.
    pub fn lock_slow<M: Memory<Node>>(
        &mut self,
        lock: &mut WordLock,
        attempt: &mut Attempt,
        memory: &mut M,
    ) -> (step: AttemptStep)
        requires
            old(attempt).ready(old(memory).nodes()),
        ensures
            lock_word::attempt_steps(
                *old(attempt),
                *final(attempt),
                old(lock).state,
                final(lock).state,
                old(memory).nodes(),
                final(memory).nodes(),
                step,
            ),
            final(self).node == old(self).node,
            final(self).is_acquired == (old(self).is_acquired || step is Acquired),
    {
        let step = lock.lock_slow(attempt, memory);
        if let AttemptStep::Acquired = step {
            self.is_acquired = true;
        }
        step
    }

    /// Tells what the task has to do when it ends without the mutex.
    pub fn end<M: Memory<Node>>(&self, memory: &M) -> (step: DropStep)
        requires
            memory.nodes().contains_key(self.node),
        ensures
            step == (if self.is_acquired {
                DropStep::Done
            } else {
                drop_step(memory.nodes()[self.node], self.node)
            }),
    {
        if self.is_acquired {
            DropStep::Done
        } else {
            drop_node(memory, self.node)
        }
    }
}

/// Releases a lock. If there is a task to wake, the thread goes on in
/// [`WordLock::unlock_unfair_slow`] with the value that comes back, and prepares
/// the node with `wake_node`.
pub fn unlock(lock: &mut WordLock) -> (dequeue: Option<Dequeue>)
    requires
        lock_word::is_locked(old(lock).state),
    ensures
        final(lock).state == lock_word::without_lock(old(lock).state),
        dequeue is Some <==> lock_word::head_of(old(lock).state) != 0
            && !lock_word::is_queue_locked(old(lock).state),
        dequeue matches Some(d) ==> d == crate::mutex::dequeue_start(),
{
    lock.unlock_unfair()
}

/// One step of a task that hands the lock over, in which the node of the task that
/// gets it is prepared to be woken.
pub open spec fn hand_over_steps(
    before: FairUnlock,
    after: FairUnlock,
    word: usize,
    new_word: usize,
    nodes: Map<usize, Node>,
    new_nodes: Map<usize, Node>,
    step: FairStep,
) -> bool {
    exists|mid: Map<usize, Node>| #[trigger]
        lock::fair_steps(before, after, word, new_word, nodes, mid, step) && new_nodes == (match step {
            FairStep::HandedOver(node) => mid.insert(node, woken(mid[node])),
            _ => mid,
        })
}

/// Takes one step of a fair release of a lock. The node of a task to which the
/// lock was handed over is prepared to be woken.
pub fn unlock_fair<M: Memory<Node>>(lock: &mut WordLock, unlock: &mut FairUnlock, memory: &mut M) -> (step: FairStep)
    requires
        old(unlock).ready(old(memory).nodes()),
        old(unlock).back is None,
    ensures
        hand_over_steps(
            *old(unlock),
            *final(unlock),
            old(lock).state,
            final(lock).state,
            old(memory).nodes(),
            final(memory).nodes(),
            step,
        ),
{
    let ghost nodes = memory.nodes();
    let ghost before = *unlock;
    let step = lock.unlock_fair(unlock, memory);
    prepare(memory, step, Ghost(before), Ghost(nodes));
    step
}

/// Prepares the node of a task to which a lock was handed over.
fn prepare<M: Memory<Node>>(
    memory: &mut M,
    step: FairStep,
    before: Ghost<FairUnlock>,
    nodes: Ghost<Map<usize, Node>>,
)
    requires
        before@.ready(nodes@),
        exists|after: FairUnlock, word: usize, new_word: usize|
            lock::fair_steps(before@, after, word, new_word, nodes@, old(memory).nodes(), step),
    ensures
        final(memory).nodes() == (match step {
            FairStep::HandedOver(node) => old(memory).nodes().insert(
                node,
                woken(old(memory).nodes()[node]),
            ),
            _ => old(memory).nodes(),
        }),
{
    if let FairStep::HandedOver(node) = step {
        proof {
            let head = lock_word::head_of(before@.state->0);
            let queue = queue::waiters(nodes@, head);
            assert(queue::is_queue(nodes@, head, queue));
            assert(queue.last() == queue[queue.len() - 1]);
        }
        wake_node(memory, node);
    }
}

/// What a task that no longer wants the mutex has to do before it ends.
#[derive(Clone, Copy, PartialEq, Eq, Debug, Structural)]
pub enum DropStep {
    /// Nothing.
    Done,
    /// The mutex was handed over to it, so it releases it.
    Release,
    /// Its node may be in the queue, so it goes on with `remove_waiter` and asks
    /// again.
    Remove(Removal),
    /// It may have been woken, so it goes on in [`WordLock::unlock_unfair_slow`] to
    /// wake another task in its place.
    Wake(Dequeue),
}

/// What a task has to do whose node is this one.
pub open spec fn drop_step(node: Node, address: usize) -> DropStep {
    if lock::is_handed(node) {
        DropStep::Release
    } else if lock::is_ready(node) {
        DropStep::Remove(Removal { state: None, has_right: false, node: address })
    } else {
        DropStep::Wake(crate::mutex::dequeue_start())
    }
}

/// Tells what a task has to do that ends without the mutex, with its node at
/// `address`.
fn drop_node<M: Memory<Node>>(memory: &M, address: usize) -> (step: DropStep)
    requires
        memory.nodes().contains_key(address),
    ensures
        step == drop_step(memory.nodes()[address], address),
{
    let flags: u8 = memory.read(address).flags;
    if flags & WAIT_NODE_HANDOFF != 0 {
        DropStep::Release
    } else if flags & WAIT_NODE_INIT != 0 {
        DropStep::Remove(Removal::new(address))
    } else {
        DropStep::Wake(Dequeue::new(false))
    }
}

/// One step of a task that leaves the queue, in which a node that has left is not
/// ready any more.
pub open spec fn leave_steps(
    before: Removal,
    after: Removal,
    word: usize,
    new_word: usize,
    nodes: Map<usize, Node>,
    new_nodes: Map<usize, Node>,
    step: RemoveStep,
) -> bool {
    exists|mid: Map<usize, Node>| #[trigger]
        lock::removal_steps(before, after, word, new_word, nodes, mid, step) && new_nodes == (match step {
            RemoveStep::Removed => mid.insert(before.node, woken(mid[before.node])),
            _ => mid,
        })
}

/// Takes one step of a task that leaves the queue of a lock.
pub fn remove_waiter<M: Memory<Node>>(lock: &mut WordLock, removal: &mut Removal, memory: &mut M) -> (step:
    RemoveStep)
    requires
        old(removal).ready(old(memory).nodes()),
        old(memory).nodes().contains_key(old(removal).node),
    ensures
        leave_steps(
            *old(removal),
            *final(removal),
            old(lock).state,
            final(lock).state,
            old(memory).nodes(),
            final(memory).nodes(),
            step,
        ),
{
    let address = removal.node;
    let step = lock.remove_waiter(removal, memory);
    if let RemoveStep::Removed = step {
        wake_node(memory, address);
    }
    step
}

/// Tells what a task with its node at `address` has to do that has got the lock by
/// this attempt: if it was polled while its node was in the queue, it goes on with
/// `remove_waiter` until the node is out of it.
pub fn leave_queue(attempt: &Attempt, address: usize) -> (removal: Option<Removal>)
    ensures
        removal == (if attempt.queued {
            Some(Removal { state: None, has_right: false, node: address })
        } else {
            None
        }),
{
    if attempt.queued {
        Some(Removal::new(address))
    } else {
        None
    }
}

/// A task that lets another task have the mutex and then wants it back.
#[derive(Clone, Copy, PartialEq, Eq, Debug, Structural)]
pub struct MutexFutureBump {
    pub bumped: bool,
    pub is_acquired: bool,
    pub node: usize,
}

/// What a task that lets another have the mutex has to do when it is polled.
#[derive(Clone, Copy, PartialEq, Eq, Debug, Structural)]
pub enum BumpPoll {
    /// Nothing, as it has the mutex.
    Ready,
    /// It lets another have the mutex with `bump_slow`.
    Bump(FairUnlock),
    /// It goes on towards the mutex with this attempt.
    Slow(Attempt),
}

impl MutexFutureBump {
    /// A task that has not been polled.
    pub fn new(node: usize) -> (future: Self)
        ensures
            future == (MutexFutureBump { bumped: false, is_acquired: false, node }),
    {
        MutexFutureBump { bumped: false, is_acquired: false, node }
    }

    /// Tells whether the task is done.
    pub fn is_terminated(&self) -> (done: bool)
        ensures
            done == self.is_acquired,
    {
        self.is_acquired
    }

    /// Polls the task. The first time, the mutex is handed to a waiting task, if
    /// there is one. After that the task wants it back.
    pub fn poll<M: Memory<Node>>(&mut self, lock: &mut WordLock, memory: &M) -> (poll: BumpPoll)
        requires
            !old(self).is_acquired,
            memory.nodes().contains_key(old(self).node),
        ensures
            !old(self).bumped ==> {
                &&& poll == BumpPoll::Bump(
                    FairUnlock { state: None, has_right: false, back: Some(old(self).node) },
                )
                &&& *final(self) == *old(self)
                &&& *final(lock) == *old(lock)
            },
            old(self).bumped ==> {
                &&& poll_starts(
                    *old(lock),
                    *final(lock),
                    memory.nodes()[old(self).node],
                    old(self).node,
                    match poll {
                        BumpPoll::Slow(attempt) => Some(attempt),
                        _ => None,
                    },
                )
                &&& !(poll is Bump)
                &&& *final(self) == (MutexFutureBump {
                    is_acquired: poll == BumpPoll::Ready,
                    ..*old(self)
                })
            },
    {
        if !self.bumped {
            return BumpPoll::Bump(FairUnlock::bumping(self.node));
        }
        match lock.lock(0, memory, self.node) {
            None => {
                self.is_acquired = true;
                BumpPoll::Ready
            },
            Some(attempt) => BumpPoll::Slow(attempt),
        }
    }

    /// Takes one step towards letting another task have the mutex. If nobody waits,
    /// the task keeps the mutex and is done. Otherwise it is pending once the mutex
    /// is handed over, behind all others.
    pub fn bump_slow<M: Memory<Node>>(
        &mut self,
        lock: &mut WordLock,
        unlock: &mut FairUnlock,
        memory: &mut M,
    ) -> (step: FairStep)
        requires
            !old(self).bumped,
            !old(self).is_acquired,
            old(unlock).ready(old(memory).nodes()),
            old(unlock).back == Some(old(self).node),
        ensures
            hand_over_steps(
                *old(unlock),
                *final(unlock),
                old(lock).state,
                final(lock).state,
                old(memory).nodes(),
                final(memory).nodes(),
                step,
            ),
            final(self).node == old(self).node,
            final(self).bumped == !(step is Continue),
            final(self).is_acquired == (step is Kept),
    {
        let ghost nodes = memory.nodes();
        let ghost before = *unlock;
        let step = lock.bump(unlock, memory);
        prepare(memory, step, Ghost(before), Ghost(nodes));
        match step {
            FairStep::Continue => {},
            FairStep::Kept => {
                self.bumped = true;
                self.is_acquired = true;
            },
            _ => {
                self.bumped = true;
            },
        }
        step
    }

    /// Tells what the task has to do when it ends without the mutex.
    pub fn end<M: Memory<Node>>(&self, memory: &M) -> (step: DropStep)
        requires
            memory.nodes().contains_key(self.node),
        ensures
            step == (if self.is_acquired || !self.bumped {
                DropStep::Done
            } else {
                drop_step(memory.nodes()[self.node], self.node)
            }),
    {
        if self.is_acquired || !self.bumped {
            DropStep::Done
        } else {
            drop_node(memory, self.node)
        }
    }
}

/// A task that has let others have the mutex while it did something, and wants it
/// back before it goes on with what came of that.
pub struct MutexFutureUnlock<T> {
    pub node: usize,
    pub output: Option<T>,
}

impl<T> MutexFutureUnlock<T> {
    /// A task that has not been polled, with what came of its doing.
    pub fn new(node: usize, output: T) -> (future: Self)
        ensures
            future.node == node,
            future.output == Some(output),
    {
        MutexFutureUnlock { node, output: Some(output) }
    }

    /// Polls the task. If the mutex cannot be had at once, an attempt comes back,
    /// with which the task goes on in [`WordLock::lock_slow`]. Once it has the
    /// mutex it goes on with `ready`.
    pub fn poll<M: Memory<Node>>(&self, lock: &mut WordLock, memory: &M) -> (attempt: Option<Attempt>)
        requires
            memory.nodes().contains_key(self.node),
        ensures
            poll_starts(*old(lock), *final(lock), memory.nodes()[self.node], self.node, attempt),
    {
        lock.lock(0, memory, self.node)
    }

    /// What the task goes on with.
    pub fn ready(self) -> (output: T)
        requires
            self.output is Some,
        ensures
            Some(output) == self.output,
    {
        match self.output {
            Some(output) => output,
            None => vstd::pervasive::unreached(),
        }
    }
}

/// A task to whose node the lock was handed over has it when it is next polled,
/// without touching the word, even after its node was prepared to be woken.
pub proof fn handoff_is_received(lock: WordLock, after: WordLock, node: Node, address: usize, attempt: Option<Attempt>)
    requires
        poll_starts(lock, after, woken(lock::handed(node)), address, attempt),
    ensures
        attempt is None,
        after.state == lock.state,
{
    lock::flag_fields(node.flags);
    woken_fields(lock::handed(node).flags);
}

/// A task that was woken without a handover enqueues its node again if it cannot
/// have the lock.
pub proof fn woken_task_waits_again(lock: WordLock, after: WordLock, node: Node, address: usize, attempt: Option<Attempt>)
    requires
        !lock::is_handed(node),
        poll_starts(lock, after, woken(node), address, attempt),
    ensures
        attempt matches Some(attempt) ==> !attempt.queued && attempt.node is None,
        attempt is None ==> lock.state == 0 && after.state == MUTEX_LOCK,
{
    woken_fields(node.flags);
}

} // verus!
