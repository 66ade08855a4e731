//! Construction parameters and the reasons for which they are rejected.

use vstd::prelude::*;

verus! {

/// Number of items the ingress queue holds before enqueues start being dropped,
/// unless the caller asks for another capacity.
pub const DEFAULT_QUEUE_CAPACITY: usize = 10000;

/// Longest time, in milliseconds, that the worker waits for the next item before it
/// looks at the clock and the shutdown signal again.
pub const POLL_TIMEOUT_MS: u64 = 100;

/// Capacity of the channel that carries the shutdown signal.
pub const STOP_SIGNAL_CAPACITY: usize = 1;

/// Why a configuration was rejected at construction.
#[derive(Clone, Copy, Debug, PartialEq, Eq, Structural)]
pub enum ConfigError {
    /// The batch threshold was zero: a batch holds at least one item.
    ZeroThreshold,
    /// The queue cannot be allocated: its slots would take more bytes than an
    /// allocation may have on this machine.
    QueueTooLarge,
}

} // verus!
