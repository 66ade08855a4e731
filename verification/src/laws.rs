//! What holds of every run of the flush policy.
//!
//! Each law is stated over [`run`], the model that the worker's invariant refers
//! to, so each of them holds of every worker at every moment.

use vstd::prelude::*;
use crate::model::{has_shutdown, run, step, taken, with_batch, Event, Policy, Trace};

verus! {

/// Whether every event is the arrival of an item before the interval has passed:
/// items that come faster than the time trigger can fire.
pub open spec fn is_burst<T>(policy: Policy, events: Seq<Event<T>>) -> bool {
    forall|i: int|
        0 <= i < events.len() ==> (#[trigger] events[i] matches Event::Item { elapsed_ms, .. }
            && elapsed_ms < policy.interval_ms)
}

/// Whether every event is a poll that timed out.
pub open spec fn all_idle<T>(events: Seq<Event<T>>) -> bool {
    forall|i: int| 0 <= i < events.len() ==> #[trigger] events[i] is Idle
}

/// Whether one of the idle polls saw the interval elapsed.
pub open spec fn interval_reached<T>(policy: Policy, events: Seq<Event<T>>) -> bool {
    exists|i: int|
        0 <= i < events.len() && (#[trigger] events[i] matches Event::Idle { elapsed_ms }
            && elapsed_ms >= policy.interval_ms)
}

/// One more event extends a run by one step, unless the worker had stopped.
pub proof fn lemma_run_push<T>(
    policy: Policy,
    buffer: Seq<T>,
    events: Seq<Event<T>>,
    event: Event<T>,
)
    ensures
        run(policy, buffer, events).exited ==> run(policy, buffer, events.push(event)) == run(
            policy,
            buffer,
            events,
        ),
        !run(policy, buffer, events).exited ==> run(policy, buffer, events.push(event)) == (Trace {
            batches: with_batch(
                run(policy, buffer, events).batches,
                step(policy, run(policy, buffer, events).buffer, event).batch,
            ),
            buffer: step(policy, run(policy, buffer, events).buffer, event).buffer,
            exited: step(policy, run(policy, buffer, events).buffer, event).exit,
        }),
{
    assert(events.push(event).drop_last() =~= events);
}

/// A run can be cut at any moment: what a worker does with the later events is
/// what a worker that starts with its buffer of that moment would do with them.
pub proof fn lemma_run_concat<T>(
    policy: Policy,
    buffer: Seq<T>,
    earlier: Seq<Event<T>>,
    later: Seq<Event<T>>,
)
    ensures
        run(policy, buffer, earlier).exited ==> run(policy, buffer, earlier + later) == run(
            policy,
            buffer,
            earlier,
        ),
        !run(policy, buffer, earlier).exited ==> run(policy, buffer, earlier + later) == (Trace {
            batches: run(policy, buffer, earlier).batches + run(
                policy,
                run(policy, buffer, earlier).buffer,
                later,
            ).batches,
            buffer: run(policy, run(policy, buffer, earlier).buffer, later).buffer,
            exited: run(policy, run(policy, buffer, earlier).buffer, later).exited,
        }),
    decreases later.len(),
{
    let first = run(policy, buffer, earlier);
    if later.len() == 0 {
        assert(earlier + later =~= earlier);
        assert(first.batches + Seq::<Seq<T>>::empty() =~= first.batches);
    } else {
        lemma_run_concat(policy, buffer, earlier, later.drop_last());
        assert((earlier + later).drop_last() =~= earlier + later.drop_last());
        assert((earlier + later).last() == later.last());
        if !first.exited {
            let second = run(policy, first.buffer, later.drop_last());
            if !second.exited {
                let outcome = step(policy, second.buffer, later.last());
                assert(with_batch(first.batches + second.batches, outcome.batch) =~= first.batches
                    + with_batch(second.batches, outcome.batch));
            }
        }
    }
}

/// A worker has stopped exactly when it has observed the shutdown signal.
pub proof fn lemma_exited_iff_shutdown<T>(policy: Policy, buffer: Seq<T>, events: Seq<Event<T>>)
    ensures
        run(policy, buffer, events).exited == has_shutdown(events),
    decreases events.len(),
{
    if events.len() > 0 {
        let before = events.drop_last();
        lemma_exited_iff_shutdown(policy, buffer, before);
        if has_shutdown(before) {
            let i = choose|i: int| 0 <= i < before.len() && #[trigger] before[i] is Shutdown;
            assert(events[i] is Shutdown);
        } else if events.last() is Shutdown {
            assert(events[events.len() - 1] is Shutdown);
        } else {
            assert forall|i: int| 0 <= i < events.len() implies !(#[trigger] events[i]
                is Shutdown) by {
                if i < before.len() {
                    assert(before[i] == events[i]);
                }
            }
        }
    }
}

/// No item is lost, repeated or reordered, and every batch has between one item
/// and `threshold` items.
///
/// The batches handed to the sink so far, laid end to end and followed by what is
/// still buffered, are the initial buffer followed by the items taken from the
/// queue, in order of arrival. Once the shutdown signal has been observed the
/// buffer is empty, so every item has then been handed to the sink exactly once.
pub proof fn lemma_items_delivered_in_order<T>(
    policy: Policy,
    buffer: Seq<T>,
    events: Seq<Event<T>>,
)
    requires
        policy.valid(),
        buffer.len() < policy.threshold,
    ensures
        run(policy, buffer, events).batches.flatten() + run(policy, buffer, events).buffer
            == buffer + taken(events),
        forall|i: int|
            0 <= i < run(policy, buffer, events).batches.len() ==> 1 <= (
            #[trigger] run(policy, buffer, events).batches[i]).len() <= policy.threshold,
        run(policy, buffer, events).buffer.len() < policy.threshold,
        run(policy, buffer, events).exited == has_shutdown(events),
        has_shutdown(events) ==> run(policy, buffer, events).buffer.len() == 0,
        has_shutdown(events) ==> run(policy, buffer, events).batches.flatten() == buffer + taken(
            events,
        ),
    decreases events.len(),
{
    let trace = run(policy, buffer, events);
    lemma_exited_iff_shutdown(policy, buffer, events);
    if events.len() == 0 {
        assert(trace.batches.flatten() =~= Seq::<T>::empty());
        assert(trace.batches.flatten() + trace.buffer =~= buffer + taken(events));
    } else {
        let before = run(policy, buffer, events.drop_last());
        lemma_items_delivered_in_order(policy, buffer, events.drop_last());
        lemma_exited_iff_shutdown(policy, buffer, events.drop_last());
        if !before.exited {
            let outcome = step(policy, before.buffer, events.last());
            let flat = before.batches.flatten();
            assert(flat + before.buffer == buffer + taken(events.drop_last()));
            let arrived = match events.last() {
                Event::Item { item, .. } => before.buffer.push(item),
                _ => before.buffer,
            };
            assert(flat + arrived =~= buffer + taken(events)) by {
                match events.last() {
                    Event::Item { item, .. } => {
                        assert(flat + arrived =~= (flat + before.buffer).push(item));
                        assert(buffer + taken(events) =~= (buffer + taken(
                            events.drop_last(),
                        )).push(item));
                    },
                    _ => {},
                }
            }
            match outcome.batch {
                Some(batch) => {
                    before.batches.lemma_flatten_push(batch);
                    assert(batch == arrived);
                    assert(trace.batches.flatten() + trace.buffer =~= flat + arrived);
                },
                None => {
                    assert(trace.buffer =~= arrived);
                },
            }
        }
    }
    if has_shutdown(events) {
        assert(trace.batches.flatten() + trace.buffer =~= trace.batches.flatten());
    }
}

/// A burst is cut into whole batches.
///
/// When items arrive faster than the time trigger can fire, the worker flushes
/// exactly when the buffer reaches the threshold: of the `n` items that the initial
/// buffer and the burst hold together, the first `n / threshold` stretches of
/// `threshold` items have each been handed to the sink as one batch, in order, and
/// the remaining `n % threshold` items are in the buffer. No partial batch is
/// handed over during the burst.
pub proof fn lemma_burst_gives_full_batches<T>(
    policy: Policy,
    buffer: Seq<T>,
    events: Seq<Event<T>>,
)
    requires
        policy.valid(),
        buffer.len() < policy.threshold,
        is_burst(policy, events),
    ensures
        run(policy, buffer, events).batches.len() == (buffer + taken(events)).len()
            / policy.threshold,
        run(policy, buffer, events).buffer.len() == (buffer + taken(events)).len()
            % policy.threshold,
        (buffer + taken(events)).len() == buffer.len() + events.len(),
        forall|i: int|
            0 <= i < run(policy, buffer, events).batches.len() ==> #[trigger] run(
                policy,
                buffer,
                events,
            ).batches[i] == (buffer + taken(events)).subrange(
                i * policy.threshold,
                (i + 1) * policy.threshold,
            ),
        run(policy, buffer, events).buffer == (buffer + taken(events)).subrange(
            (run(policy, buffer, events).batches.len() * policy.threshold) as int,
            (buffer + taken(events)).len() as int,
        ),
{
    lemma_burst_shape(policy, buffer, events);
    let trace = run(policy, buffer, events);
    let all = buffer + taken(events);
    let th: int = policy.threshold as int;
    vstd::arithmetic::div_mod::lemma_fundamental_div_mod_converse(
        all.len() as int,
        th,
        trace.batches.len() as int,
        trace.buffer.len() as int,
    );
}

/// The induction behind `lemma_burst_gives_full_batches`, with the number of
/// batches and the length of the buffer in place of quotient and remainder.
proof fn lemma_burst_shape<T>(policy: Policy, buffer: Seq<T>, events: Seq<Event<T>>)
    requires
        policy.valid(),
        buffer.len() < policy.threshold,
        is_burst(policy, events),
    ensures
        !run(policy, buffer, events).exited,
        (buffer + taken(events)).len() == buffer.len() + events.len(),
        (buffer + taken(events)).len() == run(policy, buffer, events).batches.len()
            * policy.threshold + run(policy, buffer, events).buffer.len(),
        run(policy, buffer, events).buffer.len() < policy.threshold,
        forall|i: int|
            0 <= i < run(policy, buffer, events).batches.len() ==> #[trigger] run(
                policy,
                buffer,
                events,
            ).batches[i] == (buffer + taken(events)).subrange(
                i * policy.threshold,
                (i + 1) * policy.threshold,
            ),
        run(policy, buffer, events).buffer == (buffer + taken(events)).subrange(
            (run(policy, buffer, events).batches.len() * policy.threshold) as int,
            (buffer + taken(events)).len() as int,
        ),
    decreases events.len(),
{
    let trace = run(policy, buffer, events);
    let all = buffer + taken(events);
    let th: int = policy.threshold as int;
    if events.len() == 0 {
        assert(trace.buffer =~= all.subrange(0, all.len() as int));
    } else {
        let shorter = events.drop_last();
        assert(is_burst(policy, shorter)) by {
            assert forall|i: int| 0 <= i < shorter.len() implies (
            #[trigger] shorter[i] matches Event::Item { elapsed_ms, .. } && elapsed_ms
                < policy.interval_ms) by {
                assert(shorter[i] == events[i]);
            }
        }
        lemma_burst_shape(policy, buffer, shorter);
        lemma_exited_iff_shutdown(policy, buffer, shorter);
        let before = run(policy, buffer, shorter);
        let earlier = buffer + taken(shorter);
        let count: int = before.batches.len() as int;
        assert(events[events.len() - 1] is Item);
        let item = events.last()->item;
        assert(taken(events) == taken(shorter).push(item));
        assert(all =~= earlier.push(item));
        let grown = before.buffer.push(item);
        assert(grown =~= all.subrange(count * th, all.len() as int));
        assert forall|i: int| 0 <= i < count implies #[trigger] before.batches[i]
            == all.subrange(i * th, (i + 1) * th) by {
            assert((i + 1) * th <= count * th) by (nonlinear_arith)
                requires
                    i + 1 <= count,
                    th >= 0,
            ;
            assert(0 <= i * th) by (nonlinear_arith)
                requires
                    0 <= i,
                    th >= 0,
            ;
            assert(i * th <= (i + 1) * th) by (nonlinear_arith)
                requires
                    th >= 0,
            ;
            assert(earlier.subrange(i * th, (i + 1) * th) =~= all.subrange(i * th, (i + 1) * th));
        }
        if grown.len() >= th {
            assert(trace.batches == before.batches.push(grown));
            assert((count + 1) * th == count * th + th) by (nonlinear_arith);
            assert(trace.buffer =~= all.subrange((count + 1) * th, all.len() as int));
            assert forall|i: int| 0 <= i < trace.batches.len() implies #[trigger] trace.batches[i]
                == all.subrange(i * th, (i + 1) * th) by {
                if i < count {
                    assert(trace.batches[i] == before.batches[i]);
                }
            }
        } else {
            assert(trace.batches == before.batches);
        }
    }
}

/// A partial batch waits for the interval and is then flushed whole.
///
/// With fewer items buffered than the threshold and no further arrivals, nothing
/// is handed to the sink while the polls see less than the interval elapsed. The
/// first poll that sees the interval elapsed hands over exactly the buffered items
/// as one batch, and later idle polls hand over nothing.
pub proof fn lemma_partial_batch_flushed_at_interval<T>(
    policy: Policy,
    buffer: Seq<T>,
    events: Seq<Event<T>>,
)
    requires
        policy.valid(),
        0 < buffer.len() < policy.threshold,
        all_idle(events),
    ensures
        !interval_reached(policy, events) ==> run(policy, buffer, events) == (Trace {
            batches: Seq::empty(),
            buffer,
            exited: false,
        }),
        interval_reached(policy, events) ==> run(policy, buffer, events) == (Trace {
            batches: seq![buffer],
            buffer: Seq::empty(),
            exited: false,
        }),
    decreases events.len(),
{
    if events.len() > 0 {
        let shorter = events.drop_last();
        assert(all_idle(shorter)) by {
            assert forall|i: int| 0 <= i < shorter.len() implies #[trigger] shorter[i] is Idle by {
                assert(shorter[i] == events[i]);
            }
        }
        lemma_partial_batch_flushed_at_interval(policy, buffer, shorter);
        let last = events[events.len() - 1];
        assert(last is Idle);
        let elapsed_ms: u64 = last->Idle_elapsed_ms;
        if interval_reached(policy, shorter) {
            let i = choose|i: int|
                0 <= i < shorter.len() && (#[trigger] shorter[i] matches Event::Idle { elapsed_ms }
                    && elapsed_ms >= policy.interval_ms);
            assert(events[i] == shorter[i]);
        } else if elapsed_ms >= policy.interval_ms {
            assert(run(policy, buffer, events).batches =~= seq![buffer]);
        } else {
            assert forall|i: int| 0 <= i < events.len() implies !(
            #[trigger] events[i] matches Event::Idle { elapsed_ms } && elapsed_ms
                >= policy.interval_ms) by {
                if i < shorter.len() {
                    assert(shorter[i] == events[i]);
                }
            }
        }
    }
}

/// Shutdown flushes the remainder in one final batch.
///
/// A worker that has not stopped and observes the shutdown signal hands its whole
/// buffer to the sink as one batch if the buffer is non-empty, makes no call if it
/// is empty, and stops with an empty buffer either way.
pub proof fn lemma_shutdown_flushes_remainder<T>(
    policy: Policy,
    buffer: Seq<T>,
    events: Seq<Event<T>>,
)
    requires
        !has_shutdown(events),
    ensures
        run(policy, buffer, events.push(Event::Shutdown)).exited,
        run(policy, buffer, events.push(Event::Shutdown)).buffer == Seq::<T>::empty(),
        run(policy, buffer, events).buffer.len() > 0 ==> run(
            policy,
            buffer,
            events.push(Event::Shutdown),
        ).batches == run(policy, buffer, events).batches.push(run(policy, buffer, events).buffer),
        run(policy, buffer, events).buffer.len() == 0 ==> run(
            policy,
            buffer,
            events.push(Event::Shutdown),
        ).batches == run(policy, buffer, events).batches,
{
    lemma_exited_iff_shutdown(policy, buffer, events);
    lemma_run_push(policy, buffer, events, Event::Shutdown);
}

/// Nothing happens after shutdown, and a second shutdown signal is the same as one.
///
/// Once the shutdown signal has been observed, whatever is observed afterwards,
/// further shutdown signals included, leaves the batches handed to the sink and the
/// state of the worker as they were.
pub proof fn lemma_nothing_after_shutdown<T>(
    policy: Policy,
    buffer: Seq<T>,
    events: Seq<Event<T>>,
    later: Seq<Event<T>>,
)
    requires
        has_shutdown(events),
    ensures
        run(policy, buffer, events + later) == run(policy, buffer, events),
    decreases later.len(),
{
    lemma_exited_iff_shutdown(policy, buffer, events);
    if later.len() == 0 {
        assert(events + later =~= events);
    } else {
        lemma_nothing_after_shutdown(policy, buffer, events, later.drop_last());
        assert((events + later).drop_last() =~= events + later.drop_last());
    }
}

} // verus!
