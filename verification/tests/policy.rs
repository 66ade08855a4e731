use vectorwave_core::batcher::{Action, Batcher};
use vectorwave_core::config::ConfigError;
use vectorwave_core::model::Event;

fn batcher(threshold: usize, interval_ms: u64) -> Batcher<&'static str> {
    match Batcher::new(threshold, interval_ms) {
        Ok(batcher) => batcher,
        Err(error) => panic!("rejected: {:?}", error),
    }
}

fn outcome(action: Action<&'static str>) -> (Option<Vec<&'static str>>, bool) {
    (action.batch, action.exit)
}

#[test]
fn batcher_starts_empty_with_its_triggers() {
    let fresh = batcher(3, 250);
    assert_eq!(fresh.len(), 0);
    assert!(fresh.is_empty());
    assert_eq!(fresh.threshold(), 3);
    assert_eq!(fresh.interval_ms(), 250);
}

#[test]
fn batcher_rejects_a_threshold_of_zero() {
    assert_eq!(Batcher::<u8>::new(0, 250).err(), Some(ConfigError::ZeroThreshold));
    assert!(Batcher::<u8>::new(1, 0).is_ok());
}

#[test]
fn flush_is_due_when_full_or_when_stale_and_not_empty() {
    let mut two = batcher(2, 100);
    // Empty: never due, however much time has passed.
    assert!(!two.flush_due(0));
    assert!(!two.flush_due(100));
    assert!(!two.flush_due(u64::MAX));
    assert_eq!(outcome(two.step(Event::Item { item: "a", elapsed_ms: 0 })), (None, false));
    // One item of two: due exactly from the interval on.
    assert!(!two.flush_due(99));
    assert!(two.flush_due(100));
    assert!(two.flush_due(101));
    let mut one = batcher(1, u64::MAX);
    assert!(!one.flush_due(u64::MAX));
    assert_eq!(
        outcome(one.step(Event::Item { item: "a", elapsed_ms: 0 })),
        (Some(vec!["a"]), false)
    );
}

#[test]
fn item_that_fills_the_buffer_is_flushed_with_it() {
    let mut three = batcher(3, 1000);
    assert_eq!(outcome(three.step(Event::Item { item: "a", elapsed_ms: 1 })), (None, false));
    assert_eq!(outcome(three.step(Event::Item { item: "b", elapsed_ms: 2 })), (None, false));
    assert_eq!(three.len(), 2);
    assert_eq!(
        outcome(three.step(Event::Item { item: "c", elapsed_ms: 3 })),
        (Some(vec!["a", "b", "c"]), false)
    );
    assert!(three.is_empty());
    assert_eq!(outcome(three.step(Event::Item { item: "d", elapsed_ms: 4 })), (None, false));
    assert_eq!(three.len(), 1);
}

#[test]
fn item_that_arrives_after_the_interval_is_flushed_at_once() {
    let mut ten = batcher(10, 50);
    assert_eq!(outcome(ten.step(Event::Item { item: "a", elapsed_ms: 49 })), (None, false));
    assert_eq!(
        outcome(ten.step(Event::Item { item: "b", elapsed_ms: 50 })),
        (Some(vec!["a", "b"]), false)
    );
    assert!(ten.is_empty());
}

#[test]
fn idle_poll_flushes_only_a_stale_buffer_that_holds_something() {
    let mut ten = batcher(10, 50);
    assert_eq!(outcome(ten.step(Event::Idle { elapsed_ms: 1000 })), (None, false));
    assert_eq!(outcome(ten.step(Event::Item { item: "a", elapsed_ms: 10 })), (None, false));
    assert_eq!(outcome(ten.step(Event::Idle { elapsed_ms: 49 })), (None, false));
    assert_eq!(ten.len(), 1);
    assert_eq!(outcome(ten.step(Event::Idle { elapsed_ms: 50 })), (Some(vec!["a"]), false));
    assert_eq!(outcome(ten.step(Event::Idle { elapsed_ms: 5000 })), (None, false));
}

#[test]
fn zero_interval_flushes_whatever_is_buffered() {
    let mut ten = batcher(10, 0);
    assert_eq!(outcome(ten.step(Event::Idle { elapsed_ms: 0 })), (None, false));
    assert_eq!(
        outcome(ten.step(Event::Item { item: "a", elapsed_ms: 0 })),
        (Some(vec!["a"]), false)
    );
}

#[test]
fn shutdown_flushes_the_buffer_whatever_the_clock_says() {
    let mut ten = batcher(10, 1000);
    assert_eq!(outcome(ten.step(Event::Item { item: "a", elapsed_ms: 0 })), (None, false));
    assert_eq!(outcome(ten.step(Event::Item { item: "b", elapsed_ms: 0 })), (None, false));
    assert_eq!(outcome(ten.step(Event::Shutdown)), (Some(vec!["a", "b"]), true));
    assert!(ten.is_empty());
    assert_eq!(outcome(ten.step(Event::Shutdown)), (None, true));
}
