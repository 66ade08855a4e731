//! The flush policy as a state machine over mathematical values.
//!
//! The state is the buffer, a sequence of items. One pass of the worker's loop
//! observes one [`Event`]; [`step`] says what the pass does to the buffer, which batch
//! it hands to the sink, and whether the worker stops. [`run`] folds `step` over a
//! sequence of events.

use vstd::prelude::*;

verus! {

/// The two triggers of a flush.
pub struct Policy {
    /// Number of buffered items at which the buffer is flushed.
    pub threshold: nat,
    /// Longest time, in milliseconds, that a non-empty buffer waits for a flush.
    pub interval_ms: nat,
}

impl Policy {
    /// A batch holds at least one item, so the threshold is at least one.
    pub open spec fn valid(self) -> bool {
        self.threshold >= 1
    }

    /// The flush predicate: the buffer is full, or it is non-empty and the interval
    /// has passed since the last flush.
    pub open spec fn flush_due(self, len: nat, elapsed_ms: nat) -> bool {
        len >= self.threshold || (elapsed_ms >= self.interval_ms && len > 0)
    }
}

/// What one pass of the worker's loop observed.
pub enum Event<T> {
    /// The shutdown signal was present.
    Shutdown,
    /// An item arrived; `elapsed_ms` is the time since the last flush, read after
    /// the item was taken from the queue.
    Item { item: T, elapsed_ms: u64 },
    /// No item arrived within the poll timeout; `elapsed_ms` as for `Item`.
    Idle { elapsed_ms: u64 },
}

/// The effect of one pass.
pub struct Outcome<T> {
    /// The buffer after the pass.
    pub buffer: Seq<T>,
    /// The batch handed to the sink in this pass, if any.
    pub batch: Option<Seq<T>>,
    /// Whether the worker stops after this pass.
    pub exit: bool,
}

/// Evaluates the flush predicate on `buffer`: either all of it is flushed as one
/// batch, or nothing is.
pub open spec fn settle<T>(policy: Policy, buffer: Seq<T>, elapsed_ms: nat) -> Outcome<T> {
    if policy.flush_due(buffer.len(), elapsed_ms) {
        Outcome { buffer: Seq::empty(), batch: Some(buffer), exit: false }
    } else {
        Outcome { buffer, batch: None, exit: false }
    }
}

/// One pass of the loop. On shutdown a non-empty buffer is flushed whatever the
/// predicate says, and the worker stops. Otherwise an arriving item is appended
/// first, and then the predicate decides.
pub open spec fn step<T>(policy: Policy, buffer: Seq<T>, event: Event<T>) -> Outcome<T> {
    match event {
        Event::Shutdown => Outcome {
            buffer: Seq::empty(),
            batch: if buffer.len() > 0 {
                Some(buffer)
            } else {
                None
            },
            exit: true,
        },
        Event::Item { item, elapsed_ms } => settle(policy, buffer.push(item), elapsed_ms as nat),
        Event::Idle { elapsed_ms } => settle(policy, buffer, elapsed_ms as nat),
    }
}

/// What a worker has done after a sequence of passes.
pub struct Trace<T> {
    /// The batches handed to the sink, in the order of the calls.
    pub batches: Seq<Seq<T>>,
    /// The buffer as it stands.
    pub buffer: Seq<T>,
    /// Whether the worker has stopped.
    pub exited: bool,
}

/// `batches` with `batch` appended, if there is one.
pub open spec fn with_batch<T>(batches: Seq<Seq<T>>, batch: Option<Seq<T>>) -> Seq<Seq<T>> {
    match batch {
        Some(b) => batches.push(b),
        None => batches,
    }
}

/// A worker that starts with `buffer` and observes `events` in order. Once it has
/// stopped, later events change nothing.
pub open spec fn run<T>(policy: Policy, buffer: Seq<T>, events: Seq<Event<T>>) -> Trace<T>
    decreases events.len(),
{
    if events.len() == 0 {
        Trace { batches: Seq::empty(), buffer, exited: false }
    } else {
        let before = run(policy, buffer, events.drop_last());
        if before.exited {
            before
        } else {
            let outcome = step(policy, before.buffer, events.last());
            Trace {
                batches: with_batch(before.batches, outcome.batch),
                buffer: outcome.buffer,
                exited: outcome.exit,
            }
        }
    }
}

/// Whether the shutdown signal is among `events`.
pub open spec fn has_shutdown<T>(events: Seq<Event<T>>) -> bool {
    exists|i: int| 0 <= i < events.len() && #[trigger] events[i] is Shutdown
}

/// The items that arrived before the shutdown signal was observed, in order of
/// arrival: what the worker took from the queue.
pub open spec fn taken<T>(events: Seq<Event<T>>) -> Seq<T>
    decreases events.len(),
{
    if events.len() == 0 {
        Seq::empty()
    } else {
        let before = taken(events.drop_last());
        if has_shutdown(events.drop_last()) {
            before
        } else {
            match events.last() {
                Event::Item { item, .. } => before.push(item),
                _ => before,
            }
        }
    }
}

} // verus!
