//! A background batching aggregator.
//!
//! Producers hand items to a [`manager::RustBatchManager`], which places them on a
//! bounded queue without ever blocking. A single [`worker::BatchWorker`] drains the
//! queue into a buffer and hands the buffer to a sink as one batch when either the
//! buffer has reached a size threshold or a time interval has passed since the last
//! flush. A shutdown signal makes the worker flush what it holds and stop for good.
//!
//! The flush policy is stated once, as a mathematical model ([`model`]), proved to
//! have the properties that callers rely on ([`laws`]), and implemented by
//! [`batcher::Batcher`]. The worker records every event it observes, and its
//! invariant says that what it has done so far is a run of that model.

pub mod batcher;
pub mod channel;
pub mod clock;
pub mod config;
pub mod laws;
pub mod manager;
pub mod model;
pub mod worker;
