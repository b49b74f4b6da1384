//! Shared state of a stand-up meeting: the `Meeting` aggregate, the pure
//! mutations applied to it, the optimistic read-modify-write transaction that
//! commits them, a versioned store, and the per-meeting notification channel.

pub mod model;
pub mod engine;
pub mod transaction;
pub mod store;
pub mod channel;
pub mod server;
pub mod client;
pub mod laws;
