//! The producer side: the ingress queue and the shutdown signal.

use vstd::prelude::*;
use crate::batcher::Batcher;
use crate::channel::{bounded_channel, fits_queue, queue_fits, try_send, SendAttempt};
use crate::config::{ConfigError, DEFAULT_QUEUE_CAPACITY, STOP_SIGNAL_CAPACITY};
use crate::model::{Event, Policy};
use crate::worker::BatchWorker;

verus! {

/// What became of an item that a producer handed in. None of the three is an error
/// to the producer: an item is accepted or it is dropped, and the call returns at
/// once either way.
#[derive(Clone, Copy, Debug, PartialEq, Eq, Structural)]
pub enum EnqueueOutcome {
    /// The item is in the queue and belongs to the pipeline.
    Accepted,
    /// The queue was full: the item was dropped.
    DroppedFull,
    /// The worker is gone: the item was dropped.
    DroppedClosed,
}

/// What became of a request to shut down.
#[derive(Clone, Copy, Debug, PartialEq, Eq, Structural)]
pub enum ShutdownOutcome {
    /// The signal is on its way to the worker.
    Signalled,
    /// An earlier signal is still waiting for the worker: this one adds nothing.
    AlreadySignalled,
    /// The worker is gone.
    WorkerGone,
}

/// The outcome that a send attempt on the ingress queue stands for.
pub open spec fn enqueue_outcome<T>(attempt: SendAttempt<T>) -> EnqueueOutcome {
    match attempt {
        SendAttempt::Sent => EnqueueOutcome::Accepted,
        SendAttempt::Full(_) => EnqueueOutcome::DroppedFull,
        SendAttempt::Disconnected(_) => EnqueueOutcome::DroppedClosed,
    }
}

/// The outcome that a send attempt on the signal channel stands for.
pub open spec fn shutdown_outcome(attempt: SendAttempt<()>) -> ShutdownOutcome {
    match attempt {
        SendAttempt::Sent => ShutdownOutcome::Signalled,
        SendAttempt::Full(_) => ShutdownOutcome::AlreadySignalled,
        SendAttempt::Disconnected(_) => ShutdownOutcome::WorkerGone,
    }
}

impl EnqueueOutcome {
    /// Reads the outcome off a send attempt; an item that came back is dropped.
    pub fn of<T>(attempt: SendAttempt<T>) -> (outcome: EnqueueOutcome)
        ensures
            outcome == enqueue_outcome(attempt),
    {
        match attempt {
            SendAttempt::Sent => EnqueueOutcome::Accepted,
            SendAttempt::Full(_) => EnqueueOutcome::DroppedFull,
            SendAttempt::Disconnected(_) => EnqueueOutcome::DroppedClosed,
        }
    }

    /// Whether the item was dropped.
    pub fn is_dropped(&self) -> (dropped: bool)
        ensures
            dropped == (*self != EnqueueOutcome::Accepted),
    {
        match self {
            EnqueueOutcome::Accepted => false,
            _ => true,
        }
    }
}

impl ShutdownOutcome {
    /// Reads the outcome off a send attempt on the signal channel.
    pub fn of(attempt: SendAttempt<()>) -> (outcome: ShutdownOutcome)
        ensures
            outcome == shutdown_outcome(attempt),
    {
        match attempt {
            SendAttempt::Sent => ShutdownOutcome::Signalled,
            SendAttempt::Full(_) => ShutdownOutcome::AlreadySignalled,
            SendAttempt::Disconnected(_) => ShutdownOutcome::WorkerGone,
        }
    }
}

/// The producer side of a batching pipeline: the handle through which items are
/// enqueued and shutdown is requested. It may be shared among any number of
/// producers.
#[verifier::reject_recursive_types(T)]
pub struct RustBatchManager<T> {
    sender: crossbeam_channel::Sender<T>,
    stop_signal: crossbeam_channel::Sender<()>,
}

impl<T> RustBatchManager<T> {
    /// Whether a pipeline with these parameters can be built, and if not, why not.
    pub open spec fn config_error(batch_threshold: usize, queue_capacity: usize) -> Option<
        ConfigError,
    > {
        if batch_threshold == 0 {
            Some(ConfigError::ZeroThreshold)
        } else if !queue_fits::<T>(queue_capacity) {
            Some(ConfigError::QueueTooLarge)
        } else {
            None
        }
    }

    /// A pipeline with a queue of the default capacity: its producer side, and the
    /// worker that is to be run on a thread of its own.
    ///
    /// `callback` is the sink; it gets one batch per call and returns whether it
    /// succeeded. The configuration is rejected where `config_error` names a
    /// reason, and accepted otherwise; the worker has then observed nothing and
    /// holds nothing.
    pub fn new<F: Fn(Vec<T>) -> bool>(
        callback: F,
        batch_threshold: usize,
        flush_interval_ms: u64,
    ) -> (made: Result<(RustBatchManager<T>, BatchWorker<T, F>), ConfigError>)
        requires
            forall|batch: Vec<T>|
                0 < batch@.len() <= batch_threshold ==> call_requires(callback, (batch,)),
        ensures
            Self::config_error(batch_threshold, DEFAULT_QUEUE_CAPACITY) matches Some(error)
                ==> made matches Err(e) && e == error,
            Self::config_error(batch_threshold, DEFAULT_QUEUE_CAPACITY) is None ==> made is Ok,
            made matches Ok(pair) ==> Self::fresh(pair.1, batch_threshold, flush_interval_ms),
    {
        Self::with_capacity(callback, batch_threshold, flush_interval_ms, DEFAULT_QUEUE_CAPACITY)
    }

    /// What holds of the worker of a pipeline that was just built.
    pub open spec fn fresh<F: Fn(Vec<T>) -> bool>(
        worker: BatchWorker<T, F>,
        batch_threshold: usize,
        flush_interval_ms: u64,
    ) -> bool {
        &&& worker.wf()
        &&& worker.policy() == (Policy {
            threshold: batch_threshold as nat,
            interval_ms: flush_interval_ms as nat,
        })
        &&& worker.events() == Seq::<Event<T>>::empty()
        &&& worker.batches() == Seq::<Seq<T>>::empty()
        &&& worker.buffered() == Seq::<T>::empty()
        &&& !worker.stopped()
    }

    /// As `new`, with a queue that holds `queue_capacity` items. With a capacity of
    /// zero an item is accepted only while the worker is waiting for one.
    pub fn with_capacity<F: Fn(Vec<T>) -> bool>(
        callback: F,
        batch_threshold: usize,
        flush_interval_ms: u64,
        queue_capacity: usize,
    ) -> (made: Result<(RustBatchManager<T>, BatchWorker<T, F>), ConfigError>)
        requires
            forall|batch: Vec<T>|
                0 < batch@.len() <= batch_threshold ==> call_requires(callback, (batch,)),
        ensures
            Self::config_error(batch_threshold, queue_capacity) matches Some(error)
                ==> made matches Err(e) && e == error,
            Self::config_error(batch_threshold, queue_capacity) is None ==> made is Ok,
            made matches Ok(pair) ==> Self::fresh(pair.1, batch_threshold, flush_interval_ms),
    {
        let batcher = match Batcher::<T>::new(batch_threshold, flush_interval_ms) {
            Ok(batcher) => batcher,
            Err(error) => {
                return Err(error);
            },
        };
        if !fits_queue::<T>(queue_capacity) {
            return Err(ConfigError::QueueTooLarge);
        }
        proof {
            lemma_signal_channel_fits();
        }
        let (sender, rx) = bounded_channel::<T>(queue_capacity);
        let (stop_signal, stop_rx) = bounded_channel::<()>(STOP_SIGNAL_CAPACITY);
        let worker = BatchWorker::new(rx, stop_rx, callback, batcher);
        Ok((RustBatchManager { sender, stop_signal }, worker))
    }

    /// Offers `item` to the queue without blocking. An item that the queue does
    /// not take is dropped, and the caller learns which way it went.
    pub fn add_object(&self, item: T) -> (outcome: EnqueueOutcome) {
        EnqueueOutcome::of(try_send(&self.sender, item))
    }

    /// Asks the worker to flush what it holds and stop. Returns at once; a signal
    /// sent while an earlier one is still pending is dropped.
    pub fn shutdown(&self) -> (outcome: ShutdownOutcome) {
        ShutdownOutcome::of(try_send(&self.stop_signal, ()))
    }
}

/// The channel that carries the shutdown signal can always be allocated.
proof fn lemma_signal_channel_fits()
    ensures
        queue_fits::<()>(STOP_SIGNAL_CAPACITY),
{
    broadcast use vstd::layout::layout_of_primitives;
    broadcast use vstd::layout::layout_of_unit_tuple;

    assert(vstd::layout::size_of::<()>() == 0);
    assert(vstd::layout::align_of::<()>() == 1);
    assert(vstd::layout::size_of::<usize>() * 8 == usize::BITS);
    assert(usize::BITS == 32 || usize::BITS == 64);
    assert(isize::MAX >= 0x7fff_ffff);
}

} // verus!
