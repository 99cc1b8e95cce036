//! The single-producer/single-consumer byte queue between the serial
//! interrupt handlers (producers) and the ingress parser (consumer).
//!
//! The queue itself comes from the `heapless` crate. Verus refuses the
//! declaration of `heapless::spsc::Queue` (its storage parameter is a
//! sealed trait), so the queue sits in a private field of an opaque
//! struct; its contents are named by the uninterpreted function
//! [`queue_bytes`], and every method the parser uses is wrapped with a
//! contract stating what the crate's source shows.

use vstd::prelude::*;

verus! {

/// Ring size of the serial queue. A `heapless::spsc::Queue` of size `N`
/// stores at most `N - 1` items.
pub const RB_SIZE: usize = 512;

/// A FIFO queue of bytes, backed by `heapless::spsc::Queue<u8, RB_SIZE>`.
#[verifier::external_body]
pub struct ByteQueue {
    inner: heapless::spsc::Queue<u8, RB_SIZE>,
}

/// The bytes held by the queue, front first.
pub uninterp spec fn queue_bytes(q: ByteQueue) -> Seq<u8>;

impl ByteQueue {
    /// Relies on `heapless::spsc::Queue::new`: creates an empty queue.
    #[verifier::external_body]
    pub fn new() -> (q: ByteQueue)
        ensures
            queue_bytes(q) == Seq::<u8>::empty(),
    {
        ByteQueue { inner: heapless::spsc::Queue::new() }
    }

    /// Relies on `heapless::spsc::Queue::len`: the number of stored items.
    #[verifier::external_body]
    pub fn len(&self) -> (n: usize)
        ensures
            n == queue_bytes(*self).len(),
    {
        self.inner.len()
    }

    /// Relies on `heapless::spsc::Queue::enqueue`: appends the item at
    /// the back when fewer than `RB_SIZE - 1` items are stored, and
    /// otherwise hands the item back unchanged.
    #[verifier::external_body]
    pub fn enqueue(&mut self, byte: u8) -> (r: Result<(), u8>)
        ensures
            r is Ok <==> queue_bytes(*old(self)).len() < RB_SIZE - 1,
            r is Ok ==> queue_bytes(*final(self)) == queue_bytes(*old(self)).push(byte),
            r is Err ==> queue_bytes(*final(self)) == queue_bytes(*old(self)) && r->Err_0 == byte,
    {
        self.inner.enqueue(byte)
    }

    /// Relies on `heapless::spsc::Queue::dequeue`: removes and returns
    /// the front item, or returns `None` when the queue is empty.
    #[verifier::external_body]
    pub fn dequeue(&mut self) -> (r: Option<u8>)
        ensures
            queue_bytes(*old(self)).len() == 0 ==> r is None,
            queue_bytes(*old(self)).len() == 0 ==> queue_bytes(*final(self)) == queue_bytes(*old(self)),
            queue_bytes(*old(self)).len() > 0 ==> r == Some(queue_bytes(*old(self))[0]),
            queue_bytes(*old(self)).len() > 0 ==> queue_bytes(*final(self)) == queue_bytes(*old(self)).drop_first(),
    {
        self.inner.dequeue()
    }
}

} // verus!
