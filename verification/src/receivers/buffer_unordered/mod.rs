//! A receiver that hands each message to its handler on its own, with a bound
//! on how many handler calls run at once and no promise about the order in
//! which they finish.
use vstd::prelude::*;

pub mod history;
pub mod model;
pub mod sync;

verus! {

/// Bounds of a receiver, fixed when it is built.
#[derive(Clone, Copy, Debug, PartialEq, Eq)]
pub struct BufferUnorderedConfig {
    /// How many messages may wait in the queue.
    pub buffer_size: usize,
    /// How many handler calls may run at once.
    pub max_parallel: usize,
}

/// The counters of a receiver.
#[derive(Clone, Copy, Debug, PartialEq, Eq)]
pub struct BufferUnorderedStats {
    /// Messages waiting in the queue.
    pub buffer: u64,
    /// Capacity of the queue.
    pub buffer_total: u64,
    /// Handler calls dispatched and not yet seen to complete.
    pub parallel: u64,
    /// Bound on `parallel`.
    pub parallel_total: u64,
}

} // verus!
