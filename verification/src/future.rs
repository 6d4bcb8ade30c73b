//! Primitives that tasks wait for without blocking a thread.
pub mod mutex;
pub mod reset_event;
