//! Blocking synchronization primitives.
pub mod event;
pub mod lock;
pub mod lock_protocol;
pub mod mutex;
pub mod parker;
pub mod raw_mutex;
pub mod raw_mutex_protocol;
pub mod reset_event;
pub mod rwlock;
pub mod rwlock_protocol;
pub mod spin_wait;
pub mod thread_parker;
pub mod wait_node;
