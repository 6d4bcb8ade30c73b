//! What the operations do, in plain numbers.
//!
//! The other modules say of each step what becomes of the values that it works on. The
//! laws here say what that amounts to for whoever takes the steps: when a lock is had,
//! how long a thread sleeps, who is woken, what a clock tells.
pub mod beginnings;
pub mod bytes;
pub mod clocks;
pub mod events;
pub mod handing_over;
pub mod links;
pub mod lots;
pub mod parking;
pub mod readers_writers;
pub mod windows;
pub mod words;
