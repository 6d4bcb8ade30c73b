//! A blocking mutex on a lock word.
use super::WordLock;
use crate::lock_word;
use crate::lock_word::{Attempt, Dequeue, MUTEX_LOCK};
use vstd::prelude::*;

verus! {

/// A mutex for blocking threads. Each method is one atomic step on the word.
pub struct SyncMutex(pub WordLock);

impl SyncMutex {
    /// A free mutex.
    pub fn new() -> (mutex: Self)
        ensures
            mutex.0.state == 0,
    {
        SyncMutex(WordLock::new())
    }

    /// Takes the mutex if it is free and nobody waits for it.
    pub fn try_lock(&mut self) -> (acquired: bool)
        ensures
            acquired == (old(self).0.state == 0),
            final(self).0.state == (if acquired {
                MUTEX_LOCK
            } else {
                old(self).0.state
            }),
    {
        self.0.try_lock()
    }

    /// Takes the mutex if it is free and nobody waits for it. Otherwise an
    /// attempt comes back, with which the thread goes on in
    /// [`WordLock::lock_slow`].
    pub fn lock(&mut self) -> (attempt: Option<Attempt>)
        ensures
            old(self).0.state == 0 ==> attempt is None && final(self).0.state == MUTEX_LOCK,
            old(self).0.state != 0 ==> final(self).0.state == old(self).0.state && attempt == Some(
                super::lock_start(),
            ),
    {
        self.0.lock()
    }

    /// Releases the mutex. If there is a node to wake, the thread goes on in
    /// [`WordLock::unlock_slow`] with the value that comes back.
    pub fn unlock(&mut self) -> (dequeue: Option<Dequeue>)
        requires
            lock_word::is_locked(old(self).0.state),
        ensures
            final(self).0.state == lock_word::without_lock(old(self).0.state),
            dequeue is Some <==> lock_word::head_of(old(self).0.state) != 0
                && !lock_word::is_queue_locked(old(self).0.state),
            dequeue matches Some(d) ==> d == super::dequeue_start(),
    {
        self.0.unlock()
    }
}

} // verus!
