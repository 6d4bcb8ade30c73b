//! A mutex for tasks on a lock word.
use super::SPIN_COUNT_DOUBLING;
use crate::lock_word;
use crate::lock_word::{release, Attempt, AttemptStep, Backoff, Dequeue, DequeueStep, MUTEX_LOCK};
use crate::queue::{Memory, Node};
use vstd::prelude::*;

verus! {

/// A value and the word that tells who may use it. Each method is one atomic step
/// on the word.
pub struct Mutex<T> {
    pub state: usize,
    pub value: T,
}

impl<T: Default> Default for Mutex<T> {
    fn default() -> (mutex: Self)
        ensures
            mutex.state == 0,
            T::default.ensures((), mutex.value),
    {
        Mutex::new(T::default())
    }
}

impl<T> Mutex<T> {
    /// A free mutex around a value.
    pub fn new(value: T) -> (mutex: Self)
        ensures
            mutex.state == 0,
            mutex.value == value,
    {
        Mutex { state: 0, value }
    }

    /// A free mutex around a value.
    pub fn from(value: T) -> (mutex: Self)
        ensures
            mutex.state == 0,
            mutex.value == value,
    {
        Mutex::new(value)
    }

    /// The value, which nobody else can use while the mutex is borrowed.
    pub fn get_mut(&mut self) -> (value: &mut T)
        ensures
            *value == old(self).value,
            *final(self) == (Mutex { state: old(self).state, value: *final(value) }),
    {
        &mut self.value
    }

    /// Tells whether the mutex is held.
    pub fn is_locked(&self) -> (locked: bool)
        ensures
            locked == lock_word::is_locked(self.state),
    {
        self.state & MUTEX_LOCK != 0
    }

    /// Takes the mutex if it is free and nobody waits for it.
    pub fn try_lock(&mut self) -> (acquired: bool)
        ensures
            acquired == (old(self).state == 0),
            final(self).value == old(self).value,
            final(self).state == (if acquired {
                MUTEX_LOCK
            } else {
                old(self).state
            }),
    {
        if self.state == 0 {
            self.state = MUTEX_LOCK;
            true
        } else {
            false
        }
    }

    /// Polls a task that wants the mutex, with its node at `address`, which is in
    /// no queue. If the mutex cannot be had at once, an attempt comes back, with
    /// which the task goes on in `lock_slow`. A task whose attempt ends with its
    /// node in the queue is pending.
    pub fn poll<M: Memory<Node>>(&mut self, memory: &mut M, address: usize) -> (attempt: Option<Attempt>)
        requires
            old(memory).nodes().contains_key(address),
        ensures
            final(self).value == old(self).value,
            old(self).state == 0 ==> {
                &&& attempt is None
                &&& final(self).state == MUTEX_LOCK
                &&& final(memory).nodes() == old(memory).nodes()
            },
            old(self).state != 0 ==> {
                &&& attempt == Some(
                    Attempt {
                        state: None,
                        spin: 0,
                        refused: false,
                        node: Some(address),
                        queued: false,
                        backoff: Backoff::Double(SPIN_COUNT_DOUBLING),
                    },
                )
                &&& final(self).state == old(self).state
                &&& final(memory).nodes() == old(memory).nodes().insert(
                    address,
                    Node { prev: 0, ..old(memory).nodes()[address] },
                )
            },
    {
        if self.try_lock() {
            return None;
        }
        let node = memory.read(address);
        memory.write(
            address,
            Node { prev: 0, next: node.next, tail: node.tail, flags: node.flags },
        );
        let mut attempt = Attempt::new(Backoff::Double(SPIN_COUNT_DOUBLING));
        attempt.set_node(address);
        Some(attempt)
    }

    /// Takes one step towards the mutex.
    pub fn lock_slow<M: Memory<Node>>(&mut self, attempt: &mut Attempt, memory: &mut M) -> (step: AttemptStep)
        requires
            old(attempt).ready(old(memory).nodes()),
        ensures
            final(self).value == old(self).value,
            lock_word::attempt_steps(
                *old(attempt),
                *final(attempt),
                old(self).state,
                final(self).state,
                old(memory).nodes(),
                final(memory).nodes(),
                step,
            ),
    {
        attempt.step(&mut self.state, memory)
    }

    /// Releases the mutex. If there is a task to wake, the thread goes on in
    /// `unlock_slow` with the value that comes back.
    pub fn unlock(&mut self) -> (dequeue: Option<Dequeue>)
        requires
            lock_word::is_locked(old(self).state),
        ensures
            final(self).value == old(self).value,
            final(self).state == lock_word::without_lock(old(self).state),
            dequeue is Some <==> lock_word::head_of(old(self).state) != 0
                && !lock_word::is_queue_locked(old(self).state),
            dequeue matches Some(d) ==> d == super::dequeue_start(),
    {
        if release(&mut self.state) {
            Some(Dequeue::new(false))
        } else {
            None
        }
    }

    /// Takes one step towards waking the first waiting task.
    pub fn unlock_slow<M: Memory<Node>>(&mut self, dequeue: &mut Dequeue, memory: &mut M) -> (step: DequeueStep)
        requires
            old(dequeue).ready(old(memory).nodes()),
        ensures
            final(self).value == old(self).value,
            lock_word::dequeue_steps(
                *old(dequeue),
                *final(dequeue),
                old(self).state,
                final(self).state,
                old(memory).nodes(),
                final(memory).nodes(),
                step,
            ),
    {
        dequeue.step(&mut self.state, memory)
    }
}

} // verus!
