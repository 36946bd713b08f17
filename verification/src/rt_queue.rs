//! Lock-free single-producer / single-consumer queue for real-time safe messaging,
//! backed by `ringbuf`'s heap ring buffer.

use ringbuf::{HeapConsumer, HeapProducer, HeapRb};
use vstd::prelude::*;

verus! {

/// Sending half of a real-time queue.
#[verifier::external_body]
#[verifier::reject_recursive_types(T)]
pub struct RtSender<T> {
    producer: HeapProducer<T>,
}

/// Receiving half of a real-time queue.
#[verifier::external_body]
#[verifier::reject_recursive_types(T)]
pub struct RtReceiver<T> {
    consumer: HeapConsumer<T>,
}

impl<T> RtSender<T> {
    /// Calls `ringbuf::Producer::push`: enqueues `value` without blocking, or hands
    /// it back in `Err` when the queue is full. Trusted: a rejected value is the one
    /// given; whether the queue has room depends on the receiving side, so nothing
    /// is claimed of which outcome comes.
    #[verifier::external_body]
    pub fn try_send(&mut self, value: T) -> (r: Result<(), T>)
        ensures
            r matches Err(v) ==> v == value,
    {
        self.producer.push(value)
    }
}

impl<T> RtReceiver<T> {
    /// Calls `ringbuf::Consumer::pop`: dequeues the oldest message without blocking,
    /// or gives `None` when the queue is empty. What comes out depends on the
    /// sending side, so nothing is claimed of it.
    #[verifier::external_body]
    pub fn try_recv(&mut self) -> Option<T> {
        self.consumer.pop()
    }
}

/// Calls `ringbuf::HeapRb::new` and `split`: creates a queue holding up to
/// `capacity` messages and returns its two halves. `HeapRb::new` panics on a zero
/// capacity, so one is required.
#[verifier::external_body]
pub fn rt_queue<T>(capacity: usize) -> (RtSender<T>, RtReceiver<T>)
    requires
        capacity > 0,
{
    let (producer, consumer) = HeapRb::new(capacity).split();
    (RtSender { producer }, RtReceiver { consumer })
}

} // verus!
