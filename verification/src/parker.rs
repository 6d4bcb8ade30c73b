//! Parking of tasks, which wait without blocking a thread.
pub mod event;
pub mod lock;
pub mod parker;
