//! Synchronization primitives which support non-blocking integration with
//! futures.
pub mod mutex;
pub mod mutex_protocol;
