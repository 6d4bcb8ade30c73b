//! What blocking and asynchronous primitives have in common.
pub mod event;
pub mod event_protocol;
pub mod lock;
pub mod parker;
pub mod waiter;
