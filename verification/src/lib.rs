pub mod event;
pub mod future;
pub mod futures;
pub mod laws;
pub mod lock_protocol;
pub mod lock_word;
pub mod mutex;
pub mod parker;
pub mod queue;
pub mod shared;
pub mod signal;
pub mod sync;
pub mod thread_event;
pub mod windows_api;
