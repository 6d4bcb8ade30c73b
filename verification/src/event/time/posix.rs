//! Timestamps of POSIX systems.
use super::NANOS_PER_SEC;
use vstd::prelude::*;

verus! {

/// The clock of the system.
#[derive(Clone, Copy, PartialEq, Eq, Debug, Structural)]
pub struct Timer;

impl Timer {
    /// The timestamp in nanoseconds of a clock that tells seconds and
    /// nanoseconds.
    pub fn timestamp(secs: u64, nsecs: u64) -> (nanos: u64)
        requires
            nsecs + secs * NANOS_PER_SEC <= u64::MAX,
        ensures
            nanos == nsecs + secs * NANOS_PER_SEC,
    {
        nsecs + (secs * NANOS_PER_SEC)
    }

    /// The timestamp in nanoseconds of a clock that tells ticks, of which `denom`
    /// make up `numer` nanoseconds.
    pub fn timestamp_of_ticks(ticks: u64, info: Timebase) -> (nanos: u64)
        requires
            ticks * info.numer <= u64::MAX,
            info.denom != 0,
        ensures
            nanos == (ticks * info.numer) / info.denom as int,
    {
        (ticks * info.numer as u64) / info.denom as u64
    }
}

/// How long a tick is.
#[derive(Clone, Copy, PartialEq, Eq, Debug, Structural)]
pub struct Timebase {
    pub numer: u32,
    pub denom: u32,
}

/// Nothing is remembered.
pub const UNINIT: usize = 0;

/// A thread writes down what is to be remembered.
pub const CREATING: usize = 1;

/// What is remembered may be read.
pub const INIT: usize = 2;

/// A value that is asked of the system once and remembered.
#[derive(Clone, Copy, PartialEq, Eq, Debug, Structural)]
pub struct Remembered<T> {
    pub state: usize,
    pub value: T,
}

impl<T: Copy> Remembered<T> {
    /// Nothing is remembered yet.
    pub fn new(value: T) -> (remembered: Self)
        ensures
            remembered.state == UNINIT,
            remembered.value == value,
    {
        Remembered { state: UNINIT, value }
    }

    /// What is remembered, if anything is. Otherwise the thread asks the system
    /// and goes on with `claim`.
    pub fn get(&self) -> (value: Option<T>)
        ensures
            value == (if self.state == INIT {
                Some(self.value)
            } else {
                None
            }),
    {
        if self.state == INIT {
            Some(self.value)
        } else {
            None
        }
    }

    /// Claims the right to write down the value, which only one thread gets.
    pub fn claim(&mut self) -> (claimed: bool)
        ensures
            claimed == (old(self).state == UNINIT),
            final(self).state == (if claimed {
                CREATING
            } else {
                old(self).state
            }),
            final(self).value == old(self).value,
    {
        if self.state == UNINIT {
            self.state = CREATING;
            true
        } else {
            false
        }
    }

    /// Writes down the value, with the right to do so.
    pub fn publish(&mut self, value: T)
        requires
            old(self).state == CREATING,
        ensures
            final(self).state == INIT,
            final(self).value == value,
    {
        self.value = value;
        self.state = INIT;
    }
}

} // verus!
