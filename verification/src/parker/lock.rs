//! A lock of one word around a value.
use crate::lock_word;
use crate::lock_word::{
    Attempt, AttemptStep, Backoff, Dequeue, DequeuePhase, DequeueStep, MUTEX_LOCK, QUEUE_LOCK, QUEUE_MASK,
};
use crate::queue::{Memory, Node};
use vstd::prelude::*;

verus! {

/// A value and the word that tells who may use it. Each method is one atomic step
/// on the word.
pub struct Lock<T> {
    pub state: usize,
    pub value: T,
}

impl<T> Lock<T> {
    /// A free lock around a value.
    pub fn new(value: T) -> (lock: Self)
        ensures
            lock.state == 0,
            lock.value == value,
    {
        Lock { state: 0, value }
    }

    /// Takes the lock if it is free and nobody waits for it. Otherwise an
    /// attempt comes back, with which the thread goes on in `lock_slow`. While
    /// nobody waits, the thread asks whether it is to go on spinning.
    pub fn lock(&mut self) -> (attempt: Option<Attempt>)
        ensures
            final(self).value == old(self).value,
            old(self).state == 0 ==> attempt is None && final(self).state == MUTEX_LOCK,
            old(self).state != 0 ==> final(self).state == old(self).state && attempt == Some(
                Attempt {
                    state: None,
                    spin: 0,
                    refused: false,
                    node: None,
                    queued: false,
                    backoff: Backoff::AskUncontended,
                },
            ),
    {
        if self.state == 0 {
            self.state = MUTEX_LOCK;
            None
        } else {
            Some(Attempt::new(Backoff::AskUncontended))
        }
    }

    /// Takes one step towards the lock.
    pub fn lock_slow<M: Memory<Node>>(&mut self, attempt: &mut Attempt, memory: &mut M) -> (step: AttemptStep)
        requires
            old(attempt).ready(old(memory).nodes()),
        ensures
            final(self).value == old(self).value,
            lock_word::attempt_steps(
                *old(attempt),
                *final(attempt),
                old(self).state,
                final(self).state,
                old(memory).nodes(),
                final(memory).nodes(),
                step,
            ),
    {
        attempt.step(&mut self.state, memory)
    }

    /// Does something with the value of a lock that is held. The result comes
    /// back, and the lock stays held.
    pub fn locked<R, F: FnOnce(T) -> (T, R)>(self, critical_section: F) -> (output: (Self, R))
        requires
            lock_word::is_locked(self.state),
            call_requires(critical_section, (self.value,)),
        ensures
            output.0.state == self.state,
            call_ensures(critical_section, (self.value,), (output.0.value, output.1)),
    {
        let (value, result) = critical_section(self.value);
        (Lock { state: self.state, value }, result)
    }

    /// Releases the lock. If there is a node to wake, the thread goes on in
    /// `unlock_slow` with the value that comes back.
    pub fn unlock(&mut self) -> (dequeue: Option<Dequeue>)
        ensures
            final(self).value == old(self).value,
            final(self).state == lock_word::without_lock(old(self).state),
            dequeue is Some <==> lock_word::head_of(old(self).state) != 0
                && !lock_word::is_queue_locked(old(self).state),
            dequeue matches Some(d) ==> d == (Dequeue {
                state: None,
                phase: DequeuePhase::LockQueue,
                sees_own_flag: false,
            }),
    {
        let state: usize = self.state;
        self.state = state & !MUTEX_LOCK;
        if state & QUEUE_MASK != 0 && state & QUEUE_LOCK == 0 {
            Some(Dequeue::new(false))
        } else {
            None
        }
    }

    /// Takes one step towards waking the first waiting thread. A thread that has
    /// found its tail alone in the queue clears the queue, unless others have come in
    /// meanwhile: then it looks for the tail again.
    pub fn unlock_slow<M: Memory<Node>>(&mut self, dequeue: &mut Dequeue, memory: &mut M) -> (step: DequeueStep)
        requires
            old(dequeue).ready(old(memory).nodes()),
        ensures
            final(self).value == old(self).value,
            lock_word::dequeue_steps(
                *old(dequeue),
                *final(dequeue),
                old(self).state,
                final(self).state,
                old(memory).nodes(),
                final(memory).nodes(),
                step,
            ),
    {
        dequeue.step(&mut self.state, memory)
    }
}

} // verus!
