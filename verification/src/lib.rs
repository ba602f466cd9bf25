//! Dispatch core of a message bus.
//!
//! A receiver binds one message type to a bounded queue and a bounded pool of
//! handler invocations. Producers enqueue through `try_send` and are turned away
//! at once when the queue is full or closed. A poller drains the queue, hands
//! every message (or group of messages) to the pool, reports handler failures,
//! and, once the queue is closed and empty and the pool is idle, runs the
//! finalize hook and stops.
//!
//! The library holds the bookkeeping and every decision of that protocol as
//! sequential, verified code. Running handlers, waiting and waking are left to
//! the caller, which feeds the poller events and carries out the actions that
//! it answers with.
pub mod receiver;
pub mod receivers;
