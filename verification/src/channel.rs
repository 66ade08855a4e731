//! The bounded channels of `crossbeam_channel`, as far as the library uses them.
//!
//! Nothing here is proved: the contracts of the functions marked `external_body`
//! restate what the source and the documentation of `crossbeam_channel` say. A
//! channel is shared with other threads, so what a call returns depends on what
//! those threads do, and no contract says which outcome a call has.

use vstd::prelude::*;
use vstd::layout::{align_of, size_of};

verus! {

/// `crossbeam_channel::Sender`: the sending end of a channel. Opaque.
#[verifier::external_type_specification]
#[verifier::external_body]
#[verifier::reject_recursive_types(T)]
pub struct ExSender<T>(crossbeam_channel::Sender<T>);

/// `crossbeam_channel::Receiver`: the receiving end of a channel. Opaque.
#[verifier::external_type_specification]
#[verifier::external_body]
#[verifier::reject_recursive_types(T)]
pub struct ExReceiver<T>(crossbeam_channel::Receiver<T>);

/// How an attempt to send without blocking ended.
pub enum SendAttempt<T> {
    /// The item is in the channel.
    Sent,
    /// The channel held as many items as it can; the item comes back.
    Full(T),
    /// Every receiver is gone; the item comes back.
    Disconnected(T),
}

/// What an attempt to receive brought.
pub enum Polled<T> {
    /// The oldest item of the channel.
    Item(T),
    /// The channel was empty, and stayed so for the time the caller was willing to
    /// wait.
    Empty,
    /// The channel was empty and every sender is gone.
    Disconnected,
}

impl<T> Polled<T> {
    /// Whether the attempt brought an item.
    pub fn is_item(&self) -> (brought: bool)
        ensures
            brought == (*self is Item),
    {
        match self {
            Polled::Item(_) => true,
            _ => false,
        }
    }
}

/// An upper bound on the bytes that one slot of a bounded channel of `T` takes.
///
/// A slot holds the item and a stamp of one machine word. Padding may stand
/// between the two and after them, each time less than the larger of their two
/// alignments, which is at most the alignment of `T` plus one word.
pub open spec fn slot_bytes<T>() -> nat {
    size_of::<T>() + 2 * align_of::<T>() + 3 * size_of::<usize>()
}

/// Whether a channel of `capacity` items of type `T` can be allocated: the slots
/// take no more bytes than one allocation may have.
pub open spec fn queue_fits<T>(capacity: usize) -> bool {
    capacity * slot_bytes::<T>() <= isize::MAX
}

/// Decides `queue_fits` from the layout of `T`.
pub fn fits_queue<T>(capacity: usize) -> (fits: bool)
    ensures
        fits == queue_fits::<T>(capacity),
{
    let item: u128 = core::mem::size_of::<T>() as u128;
    let align: u128 = core::mem::align_of::<T>() as u128;
    let word: u128 = core::mem::size_of::<usize>() as u128;
    let slot: u128 = item + 2 * align + 3 * word;
    assert(slot == slot_bytes::<T>());
    match (capacity as u128).checked_mul(slot) {
        Some(bytes) => bytes <= isize::MAX as u128,
        None => false,
    }
}

/// `crossbeam_channel::bounded`: a channel that holds at most `capacity` items,
/// and both of its ends.
///
/// For a capacity above zero the function allocates `capacity` slots and panics
/// where they do not fit in one allocation, or where twice the power of two above
/// `capacity` does not fit in a `usize`; `queue_fits` rules out both. A machine
/// that has not the memory for the slots ends the process, as in every allocation;
/// no contract speaks of that. Nothing is claimed of the two ends.
#[verifier::external_body]
pub(crate) fn bounded_channel<T>(capacity: usize) -> (ends: (
    crossbeam_channel::Sender<T>,
    crossbeam_channel::Receiver<T>,
))
    requires
        queue_fits::<T>(capacity),
{
    crossbeam_channel::bounded(capacity)
}

/// `Sender::try_send`: sends `item` if the channel has room and a receiver, and
/// returns at once either way.
///
/// Claimed: an item that was not sent comes back unchanged. Which of the three
/// outcomes occurs is not claimed.
#[verifier::external_body]
pub(crate) fn try_send<T>(sender: &crossbeam_channel::Sender<T>, item: T) -> (attempt: SendAttempt<
    T,
>)
    ensures
        attempt matches SendAttempt::Full(back) ==> back == item,
        attempt matches SendAttempt::Disconnected(back) ==> back == item,
{
    match sender.try_send(item) {
        Ok(()) => SendAttempt::Sent,
        Err(crossbeam_channel::TrySendError::Full(back)) => SendAttempt::Full(back),
        Err(crossbeam_channel::TrySendError::Disconnected(back)) => SendAttempt::Disconnected(back),
    }
}

/// `Receiver::try_recv`: takes the oldest item if there is one, and returns at
/// once either way. Nothing is claimed of the outcome.
#[verifier::external_body]
pub(crate) fn try_recv<T>(receiver: &crossbeam_channel::Receiver<T>) -> (polled: Polled<T>) {
    match receiver.try_recv() {
        Ok(item) => Polled::Item(item),
        Err(crossbeam_channel::TryRecvError::Empty) => Polled::Empty,
        Err(crossbeam_channel::TryRecvError::Disconnected) => Polled::Disconnected,
    }
}

/// `Receiver::recv_timeout`: takes the oldest item, waiting for one for at most
/// `timeout_ms` milliseconds. Nothing is claimed of the outcome.
///
/// The function computes its deadline from the current instant and waits without
/// limit where that sum cannot be represented; a timeout of at most one day keeps
/// the deadline representable.
#[verifier::external_body]
pub(crate) fn recv_timeout<T>(receiver: &crossbeam_channel::Receiver<T>, timeout_ms: u64) -> (polled:
    Polled<T>)
    requires
        timeout_ms <= 86_400_000,
{
    match receiver.recv_timeout(std::time::Duration::from_millis(timeout_ms)) {
        Ok(item) => Polled::Item(item),
        Err(crossbeam_channel::RecvTimeoutError::Timeout) => Polled::Empty,
        Err(crossbeam_channel::RecvTimeoutError::Disconnected) => Polled::Disconnected,
    }
}

} // verus!
