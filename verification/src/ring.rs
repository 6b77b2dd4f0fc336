//! A bounded first-in first-out queue of batches.
use ringbuffer_spsc::{RingBuffer, RingBufferReader, RingBufferWriter};
use vstd::prelude::*;

use crate::batch::WBatch;
use crate::config::RBLEN;

verus! {

/// The writing end of a ring buffer.
#[verifier::external_type_specification]
#[verifier::external_body]
#[verifier::reject_recursive_types(T)]
pub struct ExRingBufferWriter<T, const N: usize>(RingBufferWriter<T, N>);

/// The reading end of a ring buffer.
#[verifier::external_type_specification]
#[verifier::external_body]
#[verifier::reject_recursive_types(T)]
pub struct ExRingBufferReader<T, const N: usize>(RingBufferReader<T, N>);

/// Both ends of one ring buffer of `RBLEN` slots. The two ends are made
/// together and never part, so the queue has a single owner and what it
/// holds changes only through it.
pub struct BatchRing {
    writer: RingBufferWriter<WBatch, RBLEN>,
    reader: RingBufferReader<WBatch, RBLEN>,
}

/// The batches in a ring, the oldest first. What a ring holds is a
/// matter of both its ends, so it is named for the two together.
pub uninterp spec fn ring_batches(ring: BatchRing) -> Seq<WBatch>;

impl View for BatchRing {
    type V = Seq<WBatch>;

    open spec fn view(&self) -> Seq<WBatch> {
        ring_batches(*self)
    }
}

impl BatchRing {
    /// `RingBuffer::init`: the two ends of a new, empty ring.
    #[verifier::external_body]
    pub(crate) fn new() -> (ring: BatchRing)
        ensures
            ring_batches(ring) == Seq::<WBatch>::empty(),
    {
        let (writer, reader) = RingBuffer::<WBatch, RBLEN>::init();
        BatchRing { writer, reader }
    }

    /// `RingBufferWriter::push`: appends the batch where a slot is free
    /// and returns nothing; hands the batch back where all `RBLEN` slots
    /// are taken.
    #[verifier::external_body]
    pub(crate) fn push(&mut self, batch: WBatch) -> (back: Option<WBatch>)
        ensures
            ring_batches(*old(self)).len() < RBLEN ==> back is None && ring_batches(*final(self))
                == ring_batches(*old(self)).push(batch),
            ring_batches(*old(self)).len() >= RBLEN ==> back == Some(batch) && ring_batches(
                *final(self),
            ) == ring_batches(*old(self)),
    {
        self.writer.push(batch)
    }

    /// `RingBufferReader::pull`: removes and returns the oldest batch,
    /// or returns nothing where the ring is empty.
    #[verifier::external_body]
    pub(crate) fn pop(&mut self) -> (batch: Option<WBatch>)
        ensures
            ring_batches(*old(self)).len() == 0 ==> batch is None && ring_batches(*final(self))
                == ring_batches(*old(self)),
            ring_batches(*old(self)).len() > 0 ==> batch == Some(ring_batches(*old(self))[0])
                && ring_batches(*final(self)) == ring_batches(*old(self)).drop_first(),
    {
        self.reader.pull()
    }
}

} // verus!
