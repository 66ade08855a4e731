use vectorwave_core::channel::{fits_queue, Polled, SendAttempt};
use vectorwave_core::clock::{millis_of_nanos, NANOS_PER_MILLI};
use vectorwave_core::config::{DEFAULT_QUEUE_CAPACITY, POLL_TIMEOUT_MS, STOP_SIGNAL_CAPACITY};
use vectorwave_core::manager::{EnqueueOutcome, ShutdownOutcome};
use vectorwave_core::model::Event;
use vectorwave_core::worker::event_of_poll;

#[test]
fn defaults_are_those_of_the_pipeline() {
    assert_eq!(DEFAULT_QUEUE_CAPACITY, 10_000);
    assert_eq!(POLL_TIMEOUT_MS, 100);
    assert_eq!(STOP_SIGNAL_CAPACITY, 1);
    assert_eq!(NANOS_PER_MILLI, 1_000_000);
}

#[test]
fn milliseconds_are_the_whole_ones() {
    assert_eq!(millis_of_nanos(0), 0);
    assert_eq!(millis_of_nanos(999_999), 0);
    assert_eq!(millis_of_nanos(1_000_000), 1);
    assert_eq!(millis_of_nanos(1_999_999), 1);
    assert_eq!(millis_of_nanos(50_000_000), 50);
    assert_eq!(millis_of_nanos(123_456_789_012), 123_456);
}

#[test]
fn milliseconds_saturate() {
    let limit = u64::MAX as u128 * 1_000_000;
    assert_eq!(millis_of_nanos(limit), u64::MAX);
    assert_eq!(millis_of_nanos(limit - 1), u64::MAX - 1);
    assert_eq!(millis_of_nanos(limit + 1_000_000), u64::MAX);
    assert_eq!(millis_of_nanos(u128::MAX), u64::MAX);
}

#[test]
fn queue_fits_while_its_slots_fit_in_one_allocation() {
    assert!(fits_queue::<u64>(0));
    assert!(fits_queue::<u64>(DEFAULT_QUEUE_CAPACITY));
    assert!(fits_queue::<()>(STOP_SIGNAL_CAPACITY));
    assert!(!fits_queue::<u64>(usize::MAX));
    assert!(!fits_queue::<()>(usize::MAX));
    // One slot of a u64 is bounded by 8 + 2 * 8 + 3 * 8 bytes on a 64-bit machine.
    if usize::BITS == 64 {
        let most = isize::MAX as usize / 48;
        assert!(fits_queue::<u64>(most));
        assert!(!fits_queue::<u64>(most + 1));
    }
    assert!(fits_queue::<[u8; 4096]>(1000));
    assert!(!fits_queue::<[u8; 4096]>(isize::MAX as usize / 4096));
}

#[test]
fn enqueue_outcome_follows_the_send_attempt() {
    assert_eq!(EnqueueOutcome::of(SendAttempt::<u8>::Sent), EnqueueOutcome::Accepted);
    assert_eq!(EnqueueOutcome::of(SendAttempt::Full(1u8)), EnqueueOutcome::DroppedFull);
    assert_eq!(EnqueueOutcome::of(SendAttempt::Disconnected(1u8)), EnqueueOutcome::DroppedClosed);
    assert!(!EnqueueOutcome::Accepted.is_dropped());
    assert!(EnqueueOutcome::DroppedFull.is_dropped());
    assert!(EnqueueOutcome::DroppedClosed.is_dropped());
}

#[test]
fn shutdown_outcome_follows_the_send_attempt() {
    assert_eq!(ShutdownOutcome::of(SendAttempt::Sent), ShutdownOutcome::Signalled);
    assert_eq!(ShutdownOutcome::of(SendAttempt::Full(())), ShutdownOutcome::AlreadySignalled);
    assert_eq!(ShutdownOutcome::of(SendAttempt::Disconnected(())), ShutdownOutcome::WorkerGone);
}

#[test]
fn poll_brought_an_item_only_when_it_holds_one() {
    assert!(Polled::Item(5u8).is_item());
    assert!(Polled::Item(()).is_item());
    assert!(!Polled::<u8>::Empty.is_item());
    assert!(!Polled::<u8>::Disconnected.is_item());
}

#[test]
fn poll_that_brought_an_item_is_its_arrival() {
    match event_of_poll(Polled::Item("a"), 49_999_999) {
        Event::Item { item, elapsed_ms } => {
            assert_eq!(item, "a");
            assert_eq!(elapsed_ms, 49);
        }
        _ => panic!("not an arrival"),
    }
    match event_of_poll(Polled::Item(7u32), u128::MAX) {
        Event::Item { item, elapsed_ms } => {
            assert_eq!(item, 7);
            assert_eq!(elapsed_ms, u64::MAX);
        }
        _ => panic!("not an arrival"),
    }
}

#[test]
fn poll_that_brought_nothing_is_idle() {
    match event_of_poll(Polled::<u8>::Empty, 50_000_000) {
        Event::Idle { elapsed_ms } => assert_eq!(elapsed_ms, 50),
        _ => panic!("not idle"),
    }
    match event_of_poll(Polled::<u8>::Disconnected, 123_456_789) {
        Event::Idle { elapsed_ms } => assert_eq!(elapsed_ms, 123),
        _ => panic!("not idle"),
    }
}
