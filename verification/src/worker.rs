//! The batch worker: the one consumer of the queue and the one caller of the sink.

use vstd::prelude::*;
use crate::batcher::Batcher;
use crate::channel::{recv_timeout, try_recv, Polled};
use crate::clock::{clock_now, millis_of_nanos, nanos_since, whole_millis};
use crate::config::POLL_TIMEOUT_MS;
use crate::laws::{lemma_items_delivered_in_order, lemma_run_push};
use crate::model::{has_shutdown, run, step, taken, with_batch, Event, Policy, Trace};

verus! {

/// What became of one batch.
#[derive(Clone, Copy, Debug, PartialEq, Eq, Structural)]
pub struct Flush {
    /// Number of items in the batch.
    pub len: usize,
    /// Whether the sink reported success. A batch that the sink refused is lost: it
    /// is neither offered again nor put back.
    pub accepted: bool,
}

/// What one pass of the worker's loop did.
#[derive(Clone, Copy, Debug, PartialEq, Eq, Structural)]
pub struct Pass {
    /// Whether an item was taken from the queue.
    pub received: bool,
    /// The call of the sink made in this pass, if any.
    pub flush: Option<Flush>,
    /// Whether the worker has stopped.
    pub exit: bool,
}

/// The consumer side of a batching pipeline.
///
/// The worker owns the buffer and the sink. Besides them it keeps, as ghost state,
/// the events it has observed and the batches it has handed to the sink; its
/// invariant says that the latter are what the flush policy makes of the former.
#[verifier::reject_recursive_types(T)]
pub struct BatchWorker<T, F> {
    rx: crossbeam_channel::Receiver<T>,
    stop_rx: crossbeam_channel::Receiver<()>,
    sink: F,
    batcher: Batcher<T>,
    last_flush: std::time::Instant,
    stopped: bool,
    events: Ghost<Seq<Event<T>>>,
    batches: Ghost<Seq<Seq<T>>>,
}

impl<T, F: Fn(Vec<T>) -> bool> BatchWorker<T, F> {
    /// The flush triggers.
    pub closed spec fn policy(&self) -> Policy {
        self.batcher.policy()
    }

    /// Every event observed so far, oldest first.
    pub closed spec fn events(&self) -> Seq<Event<T>> {
        self.events@
    }

    /// Every batch handed to the sink so far, in the order of the calls, whether
    /// the sink accepted it or not.
    pub closed spec fn batches(&self) -> Seq<Seq<T>> {
        self.batches@
    }

    /// The items that wait in the buffer, oldest first.
    pub closed spec fn buffered(&self) -> Seq<T> {
        self.batcher@
    }

    /// Whether the worker has observed the shutdown signal and stopped.
    pub closed spec fn stopped(&self) -> bool {
        self.stopped
    }

    /// Whether the sink may be called with every batch that the policy can produce:
    /// one with at least one item and at most `threshold` items.
    pub closed spec fn sink_ready(&self) -> bool {
        forall|batch: Vec<T>|
            0 < batch@.len() <= self.batcher.policy().threshold ==> call_requires(
                self.sink,
                (batch,),
            )
    }

    /// Whether `accepted` is an answer that the sink can give to `batch`.
    pub closed spec fn sink_answers(&self, batch: Seq<T>, accepted: bool) -> bool {
        exists|items: Vec<T>| items@ == batch && call_ensures(self.sink, (items,), accepted)
    }

    /// The invariant of a worker: what it has done is the run of its policy, from
    /// an empty buffer, over the events it has observed.
    pub open spec fn wf(&self) -> bool {
        &&& self.policy().valid()
        &&& self.sink_ready()
        &&& self.buffered().len() < self.policy().threshold
        &&& run(self.policy(), Seq::empty(), self.events()) == (Trace {
            batches: self.batches(),
            buffer: self.buffered(),
            exited: self.stopped(),
        })
    }

    /// A worker that has observed nothing yet. Its clock starts now.
    pub(crate) fn new(
        rx: crossbeam_channel::Receiver<T>,
        stop_rx: crossbeam_channel::Receiver<()>,
        sink: F,
        batcher: Batcher<T>,
    ) -> (worker: Self)
        requires
            batcher.wf(),
            batcher@ == Seq::<T>::empty(),
            forall|batch: Vec<T>|
                0 < batch@.len() <= batcher.policy().threshold ==> call_requires(sink, (batch,)),
        ensures
            worker.wf(),
            worker.policy() == batcher.policy(),
            worker.events() == Seq::<Event<T>>::empty(),
            worker.batches() == Seq::<Seq<T>>::empty(),
            worker.buffered() == Seq::<T>::empty(),
            !worker.stopped(),
    {
        BatchWorker {
            rx,
            stop_rx,
            sink,
            batcher,
            last_flush: clock_now(),
            stopped: false,
            events: Ghost(Seq::empty()),
            batches: Ghost(Seq::empty()),
        }
    }

    /// Number of items that wait in the buffer.
    pub fn buffered_len(&self) -> (len: usize)
        ensures
            len == self.buffered().len(),
    {
        self.batcher.len()
    }

    /// Whether the worker has stopped.
    pub fn is_stopped(&self) -> (stopped: bool)
        ensures
            stopped == self.stopped(),
    {
        self.stopped
    }

    /// Looks at the shutdown signal, and if there is none, waits for the next item
    /// for at most the poll timeout and reads the clock.
    fn observe(&self) -> (event: Event<T>) {
        if try_recv(&self.stop_rx).is_item() {
            Event::Shutdown
        } else {
            let polled = recv_timeout(&self.rx, POLL_TIMEOUT_MS);
            event_of_poll(polled, nanos_since(&self.last_flush))
        }
    }

    /// Hands `batch` to the sink and restarts the clock. The sink's verdict is
    /// reported and has no other effect.
    fn flush_buffer(&mut self, batch: Vec<T>) -> (flush: Flush)
        requires
            0 < batch@.len() <= old(self).batcher.policy().threshold,
            old(self).sink_ready(),
        ensures
            flush.len == batch@.len(),
            call_ensures(old(self).sink, (batch,), flush.accepted),
            final(self).batches@ == old(self).batches@.push(batch@),
            final(self).batcher == old(self).batcher,
            final(self).stopped == old(self).stopped,
            final(self).events == old(self).events,
            final(self).sink == old(self).sink,
    {
        let len: usize = batch.len();
        self.batches = Ghost(self.batches@.push(batch@));
        let accepted = (self.sink)(batch);
        self.last_flush = clock_now();
        Flush { len, accepted }
    }

    /// One pass of the loop.
    ///
    /// A worker that has stopped does nothing. Otherwise the pass observes one
    /// event, which joins `events()`, and does what the policy's `step` says of it:
    /// the item, if one arrived, joins the buffer, and if a flush is due the whole
    /// buffer is handed to the sink as one batch, which joins `batches()`.
    pub fn poll_once(&mut self) -> (pass: Pass)
        requires
            old(self).wf(),
        ensures
            final(self).wf(),
            final(self).policy() == old(self).policy(),
            pass.exit == final(self).stopped(),
            old(self).stopped() ==> {
                &&& final(self).events() == old(self).events()
                &&& final(self).batches() == old(self).batches()
                &&& !pass.received
                &&& pass.flush is None
            },
            !old(self).stopped() ==> {
                &&& final(self).events().len() == old(self).events().len() + 1
                &&& final(self).events().drop_last() == old(self).events()
                &&& pass.exit == (final(self).events().last() is Shutdown)
                &&& pass.received == (final(self).events().last() is Item)
                &&& final(self).buffered() == step(
                    old(self).policy(),
                    old(self).buffered(),
                    final(self).events().last(),
                ).buffer
                &&& final(self).batches() == with_batch(
                    old(self).batches(),
                    step(
                        old(self).policy(),
                        old(self).buffered(),
                        final(self).events().last(),
                    ).batch,
                )
            },
            pass.flush is None ==> final(self).batches() == old(self).batches(),
            pass.flush matches Some(flush) ==> {
                &&& final(self).batches().len() == old(self).batches().len() + 1
                &&& final(self).batches().drop_last() == old(self).batches()
                &&& final(self).batches().last().len() == flush.len
                &&& 1 <= flush.len <= final(self).policy().threshold
                &&& final(self).sink_answers(final(self).batches().last(), flush.accepted)
                &&& final(self).buffered().len() == 0
            },
    {
        if self.stopped {
            return Pass { received: false, flush: None, exit: true };
        }
        let event = self.observe();
        let ghost seen = event;
        let received = match event {
            Event::Item { .. } => true,
            _ => false,
        };
        let action = self.batcher.step(event);
        proof {
            lemma_run_push(self.policy(), Seq::empty(), self.events@, seen);
            lemma_items_delivered_in_order(self.policy(), Seq::empty(), self.events@.push(seen));
        }
        self.events = Ghost(self.events@.push(seen));
        self.stopped = action.exit;
        let flush = match action.batch {
            Some(batch) => {
                let flush = self.flush_buffer(batch);
                assert(self.batches@.drop_last() =~= old(self).batches@);
                Some(flush)
            },
            None => None,
        };
        assert(self.events@.drop_last() =~= old(self).events@);
        Pass { received, flush, exit: action.exit }
    }

    /// Runs passes until the worker has stopped, `max_polls` passes at most.
    ///
    /// Returns whether the worker has stopped. A worker that has not is to be run
    /// again: the loop is bounded only so that it ends.
    pub fn worker_loop(&mut self, max_polls: u64) -> (stopped: bool)
        requires
            old(self).wf(),
        ensures
            final(self).wf(),
            final(self).policy() == old(self).policy(),
            stopped == final(self).stopped(),
            old(self).events().is_prefix_of(final(self).events()),
            old(self).batches().is_prefix_of(final(self).batches()),
            final(self).events().len() <= old(self).events().len() + max_polls,
            !stopped ==> final(self).events().len() == old(self).events().len() + max_polls,
            old(self).stopped() ==> final(self).events() == old(self).events(),
    {
        let mut polls: u64 = 0;
        while polls < max_polls && !self.stopped
            invariant
                self.wf(),
                self.policy() == old(self).policy(),
                polls <= max_polls,
                old(self).events().is_prefix_of(self.events()),
                old(self).batches().is_prefix_of(self.batches()),
                self.stopped() || self.events().len() == old(self).events().len() + polls,
                self.events().len() <= old(self).events().len() + polls,
                old(self).stopped() ==> self.stopped(),
                old(self).stopped() ==> self.events() == old(self).events(),
            decreases max_polls - polls,
        {
            let ghost before = *self;
            let pass = self.poll_once();
            assert(before.events().is_prefix_of(self.events())) by {
                assert(self.events().drop_last() == before.events());
            }
            assert(before.batches().is_prefix_of(self.batches())) by {
                if pass.flush is Some {
                    assert(self.batches().drop_last() == before.batches());
                }
            }
            polls = polls + 1;
        }
        self.stopped
    }

    /// No item is lost, repeated or reordered by a worker.
    ///
    /// The batches handed to the sink, laid end to end and followed by the buffer,
    /// are the items taken from the queue, in the order in which they were taken;
    /// every batch has between one item and `threshold` items; and a worker that
    /// has stopped has an empty buffer, so that it has handed every item it took to
    /// the sink, exactly once.
    pub proof fn lemma_delivery(&self)
        requires
            self.wf(),
        ensures
            self.batches().flatten() + self.buffered() == taken(self.events()),
            forall|i: int|
                0 <= i < self.batches().len() ==> 1 <= (#[trigger] self.batches()[i]).len()
                    <= self.policy().threshold,
            self.stopped() == has_shutdown(self.events()),
            self.stopped() ==> self.buffered().len() == 0,
            self.stopped() ==> self.batches().flatten() == taken(self.events()),
    {
        lemma_items_delivered_in_order(self.policy(), Seq::empty(), self.events());
        assert(Seq::<T>::empty() + taken(self.events()) =~= taken(self.events()));
    }
}

/// The event that a poll of the queue amounts to, `nanos` nanoseconds after the
/// last flush: the arrival of the item that the poll brought, or an idle poll where
/// it brought none, be it that the queue stayed empty or that every producer is
/// gone. The time is counted in whole milliseconds.
pub open spec fn poll_event<T>(polled: Polled<T>, nanos: u128) -> Event<T> {
    match polled {
        Polled::Item(item) => Event::Item { item, elapsed_ms: whole_millis(nanos as nat) as u64 },
        _ => Event::Idle { elapsed_ms: whole_millis(nanos as nat) as u64 },
    }
}

/// Turns what a poll of the queue brought, and the clock reading taken after it,
/// into the event that the policy is asked about.
pub fn event_of_poll<T>(polled: Polled<T>, nanos: u128) -> (event: Event<T>)
    ensures
        event == poll_event(polled, nanos),
{
    let elapsed_ms: u64 = millis_of_nanos(nanos);
    match polled {
        Polled::Item(item) => Event::Item { item, elapsed_ms },
        _ => Event::Idle { elapsed_ms },
    }
}

} // verus!
