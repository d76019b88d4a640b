//! A bounded frame queue between a capture callback and its writer that
//! never blocks the producer: a full queue drops the item and counts it.
use vstd::prelude::*;
use std::sync::Arc;
use std::sync::atomic::AtomicU64;
use std::sync::atomic::Ordering;
use crossbeam_channel::{Receiver, Sender, TrySendError};
use crate::capture::CaptureError;

verus! {

#[verifier::external_type_specification]
#[verifier::external_body]
#[verifier::reject_recursive_types(T)]
pub struct ExSender<T>(crossbeam_channel::Sender<T>);

#[verifier::external_type_specification]
#[verifier::external_body]
#[verifier::reject_recursive_types(T)]
pub struct ExReceiver<T>(crossbeam_channel::Receiver<T>);

/// `crossbeam_channel::bounded`: the two ends of a channel holding at most
/// `capacity` items.
#[verifier::external_body]
fn bounded_channel<T>(capacity: usize) -> (ends: (Sender<T>, Receiver<T>)) {
    crossbeam_channel::bounded(capacity)
}

/// `Sender::try_send`: sends without waiting. Whether there is room
/// depends on the other end, so only this is claimed: an item that was not
/// sent, because the queue is full or its receiver is gone, is handed back.
#[verifier::external_body]
fn channel_try_send<T>(sender: &Sender<T>, value: T) -> (r: Result<(), T>)
    ensures
        r matches Err(v) ==> v == value,
{
    match sender.try_send(value) {
        Ok(()) => Ok(()),
        Err(TrySendError::Full(v)) => Err(v),
        Err(TrySendError::Disconnected(v)) => Err(v),
    }
}

/// `Receiver::recv_timeout`: the next item, or nothing once `millis`
/// milliseconds passed without one. What arrives depends on the sender.
#[verifier::external_body]
fn channel_recv_timeout<T>(receiver: &Receiver<T>, millis: u64) -> (r: Option<T>) {
    receiver.recv_timeout(std::time::Duration::from_millis(millis)).ok()
}

/// `Receiver::len`: how many items wait; it changes as both ends work.
#[verifier::external_body]
fn channel_len<T>(receiver: &Receiver<T>) -> (n: usize) {
    receiver.len()
}

/// The producing end of a bounded queue.
#[verifier::reject_recursive_types(T)]
pub struct BoundedSender<T> {
    sender: Sender<T>,
    dropped: Arc<AtomicU64>,
}

/// The consuming end of a bounded queue.
#[verifier::reject_recursive_types(T)]
pub struct BoundedReceiver<T> {
    receiver: Receiver<T>,
    dropped: Arc<AtomicU64>,
}

/// The two ends of a queue holding at most `capacity` items; a zero
/// capacity is refused.
pub fn bounded_queue<T>(capacity: usize) -> (r: Result<(BoundedSender<T>, BoundedReceiver<T>), CaptureError>)
    ensures
        capacity == 0 <==> (r matches Err(CaptureError::InvalidConfig(m))
            && m@ == "queue capacity must be positive"@),
{
    if capacity == 0 {
        return Err(CaptureError::InvalidConfig(crate::text::owned("queue capacity must be positive")));
    }
    let (sender, receiver) = bounded_channel(capacity);
    let dropped = Arc::new(AtomicU64::new(0));
    Ok((BoundedSender { sender, dropped: dropped.clone() }, BoundedReceiver { receiver, dropped }))
}

impl<T> BoundedSender<T> {
    /// Queues `value` without waiting; when there is no room it is handed
    /// back and counted as dropped.
    pub fn try_send(&self, value: T) -> (r: Result<(), T>)
        ensures
            r matches Err(v) ==> v == value,
    {
        match channel_try_send(&self.sender, value) {
            Ok(()) => Ok(()),
            Err(v) => {
                self.dropped.fetch_add(1, Ordering::Relaxed);
                Err(v)
            },
        }
    }
}

impl<T> BoundedReceiver<T> {
    /// The next item, waiting at most `millis` milliseconds.
    pub fn recv_timeout_millis(&self, millis: u64) -> (r: Option<T>) {
        channel_recv_timeout(&self.receiver, millis)
    }

    /// How many items are waiting.
    pub fn depth(&self) -> (n: usize) {
        channel_len(&self.receiver)
    }

    /// How many items the producer dropped so far. The producer counts on
    /// another thread, so nothing is claimed of the reading.
    pub fn dropped(&self) -> (n: u64) {
        self.dropped.load(Ordering::Relaxed)
    }
}

} // verus!
