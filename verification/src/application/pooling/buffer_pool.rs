//! A pool of emptied byte buffers that serialization reuses.

use vstd::prelude::*;

use crate::application::constants::MAX_PACKET_BUFFER_SIZE;

verus! {

/// The capacity std's allocator gave the buffer (`Vec::capacity`).
/// Nothing is promised of the number.
#[verifier::external_body]
fn capacity_of(buffer: &Vec<u8>) -> usize {
    buffer.capacity()
}

/// Spare buffers, each empty, at most `max_buffers` of them.
pub struct BufferPool {
    buffers: Vec<Vec<u8>>,
    max_buffers: usize,
}

impl BufferPool {
    /// The number of spare buffers.
    pub closed spec fn spare(&self) -> nat {
        self.buffers@.len()
    }

    /// The largest number of spare buffers kept.
    pub closed spec fn limit(&self) -> nat {
        self.max_buffers as nat
    }

    /// Every spare buffer is empty and there are no more than the limit.
    pub closed spec fn wf(&self) -> bool {
        &&& self.buffers@.len() <= self.max_buffers
        &&& forall|i: int| 0 <= i < self.buffers@.len() ==> (#[trigger] self.buffers@[i])@.len() == 0
    }

    /// An empty pool that keeps at most `max_buffers` spare buffers.
    pub fn new(max_buffers: usize) -> (p: Self)
        ensures
            p.wf(),
            p.spare() == 0,
            p.limit() == max_buffers,
    {
        BufferPool { buffers: Vec::new(), max_buffers }
    }

    /// An empty buffer: a spare one if there is one, else a new one.
    pub fn get_buffer(&mut self) -> (b: Vec<u8>)
        requires
            old(self).wf(),
        ensures
            final(self).wf(),
            b@.len() == 0,
            final(self).limit() == old(self).limit(),
            final(self).spare() == if old(self).spare() > 0 {
                old(self).spare() - 1
            } else {
                0
            },
    {
        match self.buffers.pop() {
            Some(buffer) => buffer,
            None => Vec::with_capacity(MAX_PACKET_BUFFER_SIZE),
        }
    }

    /// Takes back a buffer, emptied; it is kept as a spare only if its
    /// capacity is at most twice [`MAX_PACKET_BUFFER_SIZE`] and the pool is
    /// not full.
    pub fn keep_buffer(&mut self, buffer: Vec<u8>, capacity: usize)
        requires
            old(self).wf(),
        ensures
            final(self).wf(),
            final(self).limit() == old(self).limit(),
            final(self).spare() == if capacity <= 2 * MAX_PACKET_BUFFER_SIZE && old(self).spare()
                < old(self).limit() {
                old(self).spare() + 1
            } else {
                old(self).spare()
            },
    {
        let mut buffer = buffer;
        buffer.clear();
        if capacity <= 2 * MAX_PACKET_BUFFER_SIZE && self.buffers.len() < self.max_buffers {
            self.buffers.push(buffer);
        }
    }

    /// Takes back a buffer, as [`Self::keep_buffer`] does with the capacity
    /// the allocator gave it.
    pub fn return_buffer(&mut self, buffer: Vec<u8>)
        requires
            old(self).wf(),
        ensures
            final(self).wf(),
            final(self).limit() == old(self).limit(),
            final(self).spare() == old(self).spare() || (old(self).spare() < old(self).limit()
                && final(self).spare() == old(self).spare() + 1),
    {
        let capacity = capacity_of(&buffer);
        self.keep_buffer(buffer, capacity);
    }
}

} // verus!
