//! Client orchestration layer for a relay-based publish/subscribe protocol.
//!
//! The crate ties together a signing identity, an ordered duplicate-free
//! contact list, and the control surface of a pool of relay connections,
//! and offers a notification fan-out with a drain-and-dispatch loop.

pub mod client;
pub mod contact;
pub mod equivalence;
pub mod errors;
pub mod identity;
pub mod notifications;
pub mod outside;
pub mod pool;
