//! A blocking mutex around a value.
use super::raw_mutex;
use super::raw_mutex::{AcquireAttempt, GenericRawMutex, LOCKED, UNLOCKED};
use vstd::prelude::*;

verus! {

/// A mutual exclusion primitive useful for protecting shared data. Each method is
/// one atomic step on the mutex.
pub struct GenericMutex<T> {
    pub raw_mutex: GenericRawMutex,
    pub value: T,
}

impl<T: Default> Default for GenericMutex<T> {
    fn default() -> (mutex: Self)
        ensures
            mutex.raw_mutex.state == UNLOCKED,
            mutex.raw_mutex.parker.queue == 0,
            T::default.ensures((), mutex.value),
    {
        GenericMutex::new(T::default())
    }
}

impl<T> GenericMutex<T> {
    /// Creates a new mutex in an unlocked state ready for use.
    pub fn new(value: T) -> (mutex: Self)
        ensures
            mutex.raw_mutex.state == UNLOCKED,
            mutex.raw_mutex.parker.queue == 0,
            mutex.value == value,
    {
        GenericMutex { raw_mutex: GenericRawMutex::new(), value }
    }

    /// Creates a new mutex in an unlocked state ready for use.
    pub fn from(value: T) -> (mutex: Self)
        ensures
            mutex.raw_mutex.state == UNLOCKED,
            mutex.raw_mutex.parker.queue == 0,
            mutex.value == value,
    {
        GenericMutex::new(value)
    }

    /// Consumes this mutex, returning the underlying data.
    pub fn into_inner(self) -> (value: T)
        ensures
            value == self.value,
    {
        self.value
    }

    /// Returns a mutable reference to the underlying data.
    pub fn get_mut(&mut self) -> (value: &mut T)
        ensures
            *value == old(self).value,
            *final(self) == (GenericMutex { raw_mutex: old(self).raw_mutex, value: *final(value) }),
    {
        &mut self.value
    }

    /// Attempts to acquire this lock without blocking.
    pub fn try_lock(&mut self) -> (acquired: bool)
        ensures
            acquired == !raw_mutex::is_locked(old(self).raw_mutex.state),
            final(self).raw_mutex.state == (if acquired {
                raw_mutex::with_lock(old(self).raw_mutex.state)
            } else {
                old(self).raw_mutex.state
            }),
            final(self).raw_mutex.parker == old(self).raw_mutex.parker,
            final(self).value == old(self).value,
    {
        self.raw_mutex.try_lock()
    }

    /// Acquires the mutex if it is free and no thread is parked. Otherwise an
    /// attempt comes back, with which the thread goes on in
    /// [`GenericRawMutex::acquire_slow`], for as long as it takes or until it
    /// gives up.
    pub fn lock(&mut self) -> (attempt: Option<AcquireAttempt>)
        ensures
            final(self).raw_mutex.parker == old(self).raw_mutex.parker,
            final(self).value == old(self).value,
            old(self).raw_mutex.state == UNLOCKED ==> attempt is None
                && final(self).raw_mutex.state == LOCKED,
            old(self).raw_mutex.state != UNLOCKED ==> final(self).raw_mutex.state == old(
                self,
            ).raw_mutex.state && attempt == Some(
                AcquireAttempt { state: None, spin: 0, refused: false },
            ),
    {
        self.raw_mutex.acquire()
    }

    /// Unlocks the mutex if no thread is parked. Tells whether that was done.
    /// Otherwise the thread goes on with an unfair
    /// [`GenericRawMutex::release_slow`].
    pub fn force_unlock(&mut self) -> (done: bool)
        ensures
            done == (old(self).raw_mutex.state == LOCKED),
            final(self).raw_mutex.state == (if done {
                UNLOCKED
            } else {
                old(self).raw_mutex.state
            }),
            final(self).raw_mutex.parker == old(self).raw_mutex.parker,
            final(self).value == old(self).value,
    {
        self.raw_mutex.release()
    }

    /// Unlocks the mutex if no thread is parked. Tells whether that was done.
    /// Otherwise the thread goes on with a fair [`GenericRawMutex::release_slow`].
    pub fn force_unlock_fair(&mut self) -> (done: bool)
        ensures
            done == (old(self).raw_mutex.state == LOCKED),
            final(self).raw_mutex.state == (if done {
                UNLOCKED
            } else {
                old(self).raw_mutex.state
            }),
            final(self).raw_mutex.parker == old(self).raw_mutex.parker,
            final(self).value == old(self).value,
    {
        self.raw_mutex.release()
    }
}

} // verus!
