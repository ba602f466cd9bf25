//! The receivers and the bounded queue that they share.
pub mod buffer_unordered;
pub mod buffer_unordered_batched;
pub mod mpsc;
pub mod trace;
