//! A receiver that hands messages to its handler in groups, with a bound on
//! how many handler calls run at once and no promise about the order in which
//! they finish.
//!
//! Between the queue and the pool stands an accumulation stage. In ready mode
//! a group is whatever is available when the poller looks, up to `batch_size`
//! messages. In strict mode the stage waits until it holds `batch_size`
//! messages; only the closing of the queue sends a smaller, last group on
//! its way.
use vstd::prelude::*;

pub mod history;
pub mod model;
pub mod sync;

verus! {

/// Bounds and grouping policy of a receiver, fixed when it is built.
#[derive(Clone, Copy, Debug, PartialEq, Eq)]
pub struct BufferUnorderedBatchedConfig {
    /// How many messages may wait in the queue.
    pub buffer_size: usize,
    /// How many handler calls may run at once.
    pub max_parallel: usize,
    /// The most messages that one group may hold; at least one.
    pub batch_size: usize,
    /// Ready mode if set, strict mode if not.
    pub when_ready: bool,
}

/// The counters of a receiver.
#[derive(Clone, Copy, Debug, PartialEq, Eq)]
pub struct BufferUnorderedBatchedStats {
    /// Messages waiting in the queue.
    pub buffer: u64,
    /// Capacity of the queue.
    pub buffer_total: u64,
    /// Handler calls dispatched and not yet seen to complete.
    pub parallel: u64,
    /// Bound on `parallel`.
    pub parallel_total: u64,
    /// Messages gathered for the next group.
    pub batch: u64,
    /// Bound on the size of a group.
    pub batch_size: u64,
}

} // verus!
