//! A mutex of one word with adaptive spinning and a queue of waiting threads.
pub mod futures;
pub mod sync;

use crate::lock_word;
use crate::lock_word::{release, Attempt, AttemptStep, Backoff, Dequeue, DequeuePhase, DequeueStep, MUTEX_LOCK};
use crate::queue::{Memory, Node};
use vstd::prelude::*;

verus! {

/// How often a waiting thread doubles the number of hints it spins for.
pub const SPIN_COUNT_DOUBLING: usize = 4;

/// A word-sized mutex. Each method is one atomic step on the word. Threads that
/// cannot get the lock wait in a queue and the first of them is woken first.
pub struct WordLock {
    pub state: usize,
}

impl WordLock {
    /// A free lock.
    pub fn new() -> (lock: Self)
        ensures
            lock.state == 0,
    {
        WordLock { state: 0 }
    }

    /// Takes the lock if it is free and nobody waits for it.
    pub fn try_lock(&mut self) -> (acquired: bool)
        ensures
            acquired == (old(self).state == 0),
            final(self).state == (if acquired {
                MUTEX_LOCK
            } else {
                old(self).state
            }),
    {
        if self.state == 0 {
            self.state = MUTEX_LOCK;
            true
        } else {
            false
        }
    }

    /// Takes the lock if it is free and nobody waits for it. Otherwise an
    /// attempt comes back, with which the thread goes on in `lock_slow`.
    pub fn lock(&mut self) -> (attempt: Option<Attempt>)
        ensures
            old(self).state == 0 ==> attempt is None && final(self).state == MUTEX_LOCK,
            old(self).state != 0 ==> final(self).state == old(self).state && attempt == Some(
                lock_start(),
            ),
    {
        if self.try_lock() {
            None
        } else {
            Some(Attempt::new(Backoff::Double(SPIN_COUNT_DOUBLING)))
        }
    }

    /// Takes one step towards the lock.
    pub fn lock_slow<M: Memory<Node>>(
        &mut self,
        attempt: &mut Attempt,
        memory: &mut M,
    ) -> (step: AttemptStep)
        requires
            old(attempt).ready(old(memory).nodes()),
        ensures
            lock_word::attempt_steps(
                *old(attempt),
                *final(attempt),
                old(self).state,
                final(self).state,
                old(memory).nodes(),
                final(memory).nodes(),
                step,
            ),
    {
        attempt.step(&mut self.state, memory)
    }

    /// Releases the lock. If there is a node to wake, the thread goes on in
    /// `unlock_slow` with the value that comes back.
    pub fn unlock(&mut self) -> (dequeue: Option<Dequeue>)
        requires
            lock_word::is_locked(old(self).state),
        ensures
            final(self).state == lock_word::without_lock(old(self).state),
            dequeue is Some <==> lock_word::head_of(old(self).state) != 0 && !lock_word::is_queue_locked(
                old(self).state,
            ),
            dequeue matches Some(d) ==> d == dequeue_start(),
    {
        if release(&mut self.state) {
            Some(Dequeue::new(false))
        } else {
            None
        }
    }

    /// Takes one step towards waking the first waiting thread.
    pub fn unlock_slow<M: Memory<Node>>(
        &mut self,
        dequeue: &mut Dequeue,
        memory: &mut M,
    ) -> (step: DequeueStep)
        requires
            old(dequeue).ready(old(memory).nodes()),
        ensures
            lock_word::dequeue_steps(
                *old(dequeue),
                *final(dequeue),
                old(self).state,
                final(self).state,
                old(memory).nodes(),
                final(memory).nodes(),
                step,
            ),
    {
        dequeue.step(&mut self.state, memory)
    }
}

/// A thread that has just failed to get the lock at once.
pub open spec fn lock_start() -> Attempt {
    Attempt {
        state: None,
        spin: 0,
        refused: false,
        node: None,
        queued: false,
        backoff: Backoff::Double(SPIN_COUNT_DOUBLING),
    }
}

/// A thread that has just released the lock.
pub open spec fn dequeue_start() -> Dequeue {
    Dequeue {
        state: None,
        phase: DequeuePhase::LockQueue,
        sees_own_flag: false,
    }
}

} // verus!
