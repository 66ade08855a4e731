//! The accumulation buffer and the flush policy, as executable code.

use vstd::prelude::*;
use crate::config::ConfigError;
use crate::model::{step, Event, Policy};

verus! {

/// What the caller of [`Batcher::step`] has to do.
pub struct Action<T> {
    /// The batch to hand to the sink now, if any. It is never empty.
    pub batch: Option<Vec<T>>,
    /// Whether the worker stops after handing over `batch`.
    pub exit: bool,
}

impl<T> Action<T> {
    /// The batch as a sequence of items.
    pub open spec fn batch_view(&self) -> Option<Seq<T>> {
        match self.batch {
            Some(items) => Some(items@),
            None => None,
        }
    }
}

/// The worker's buffer together with its two flush triggers.
///
/// Between two steps the buffer holds fewer items than the threshold.
pub struct Batcher<T> {
    buffer: Vec<T>,
    threshold: usize,
    interval_ms: u64,
}

impl<T> View for Batcher<T> {
    type V = Seq<T>;

    /// The buffered items, oldest first.
    closed spec fn view(&self) -> Seq<T> {
        self.buffer@
    }
}

impl<T> Batcher<T> {
    /// The triggers this batcher was built with.
    pub closed spec fn policy(&self) -> Policy {
        Policy { threshold: self.threshold as nat, interval_ms: self.interval_ms as nat }
    }

    /// The invariant: the policy is valid and the buffer is below the threshold.
    pub open spec fn wf(&self) -> bool {
        &&& self.policy().valid()
        &&& self@.len() < self.policy().threshold
    }

    /// An empty batcher. A threshold of zero is rejected; every interval is
    /// accepted, zero included.
    pub fn new(threshold: usize, interval_ms: u64) -> (made: Result<Batcher<T>, ConfigError>)
        ensures
            threshold == 0 ==> made == Err::<Batcher<T>, ConfigError>(ConfigError::ZeroThreshold),
            threshold >= 1 ==> made is Ok,
            made matches Ok(batcher) ==> {
                &&& batcher.wf()
                &&& batcher@ == Seq::<T>::empty()
                &&& batcher.policy() == (Policy {
                    threshold: threshold as nat,
                    interval_ms: interval_ms as nat,
                })
            },
    {
        if threshold == 0 {
            Err(ConfigError::ZeroThreshold)
        } else {
            Ok(Batcher { buffer: Vec::new(), threshold, interval_ms })
        }
    }

    /// Number of buffered items.
    pub fn len(&self) -> (len: usize)
        ensures
            len == self@.len(),
    {
        self.buffer.len()
    }

    /// Whether the buffer is empty.
    pub fn is_empty(&self) -> (empty: bool)
        ensures
            empty == (self@.len() == 0),
    {
        self.buffer.len() == 0
    }

    /// The size trigger.
    pub fn threshold(&self) -> (threshold: usize)
        ensures
            threshold == self.policy().threshold,
    {
        self.threshold
    }

    /// The time trigger, in milliseconds.
    pub fn interval_ms(&self) -> (interval_ms: u64)
        ensures
            interval_ms == self.policy().interval_ms,
    {
        self.interval_ms
    }

    /// The flush predicate on the buffer as it stands.
    pub fn flush_due(&self, elapsed_ms: u64) -> (due: bool)
        ensures
            due == self.policy().flush_due(self@.len(), elapsed_ms as nat),
    {
        self.buffer.len() >= self.threshold || (elapsed_ms >= self.interval_ms
            && self.buffer.len() > 0)
    }

    /// Moves the whole buffer out and leaves an empty one behind.
    fn take_all(&mut self) -> (batch: Vec<T>)
        ensures
            batch@ == old(self)@,
            final(self)@ == Seq::<T>::empty(),
            final(self).policy() == old(self).policy(),
    {
        let mut batch: Vec<T> = Vec::new();
        std::mem::swap(&mut self.buffer, &mut batch);
        batch
    }

    /// Evaluates the flush predicate and takes the buffer out if it holds.
    fn settle(&mut self, elapsed_ms: u64) -> (action: Action<T>)
        ensures
            final(self).policy() == old(self).policy(),
            final(self)@ == crate::model::settle(
                old(self).policy(),
                old(self)@,
                elapsed_ms as nat,
            ).buffer,
            action.batch_view() == crate::model::settle(
                old(self).policy(),
                old(self)@,
                elapsed_ms as nat,
            ).batch,
            !action.exit,
    {
        if self.flush_due(elapsed_ms) {
            let batch = self.take_all();
            Action { batch: Some(batch), exit: false }
        } else {
            Action { batch: None, exit: false }
        }
    }

    /// One pass of the worker's loop on an event that was already observed: updates
    /// the buffer and says which batch to hand to the sink and whether to stop,
    /// exactly as the model's `step` does.
    pub fn step(&mut self, event: Event<T>) -> (action: Action<T>)
        requires
            old(self).wf(),
        ensures
            final(self).wf(),
            final(self).policy() == old(self).policy(),
            final(self)@ == step(old(self).policy(), old(self)@, event).buffer,
            action.batch_view() == step(old(self).policy(), old(self)@, event).batch,
            action.exit == step(old(self).policy(), old(self)@, event).exit,
    {
        match event {
            Event::Shutdown => {
                if self.buffer.len() > 0 {
                    let batch = self.take_all();
                    Action { batch: Some(batch), exit: true }
                } else {
                    assert(self.buffer@ =~= Seq::<T>::empty());
                    Action { batch: None, exit: true }
                }
            },
            Event::Item { item, elapsed_ms } => {
                self.buffer.push(item);
                self.settle(elapsed_ms)
            },
            Event::Idle { elapsed_ms } => self.settle(elapsed_ms),
        }
    }
}

} // verus!
