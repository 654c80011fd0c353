//! Gathering the bytes of a stream into one contiguous buffer.

use vstd::prelude::*;
use bytes::{Bytes, BytesMut};
use crate::byte_buf;
use crate::byte_buf::{bytes_content, bytes_mut_content};

verus! {

/// Collects the chunks that a stream hands out, in order, until an empty
/// chunk says that the stream has ended.
///
/// Whoever owns the stream runs the loop: it fetches a chunk, feeds it, and
/// goes on for as long as `feed` answers `true`.
pub struct ByteCollector {
    buffer: BytesMut,
}

impl ByteCollector {
    /// The bytes collected so far.
    pub closed spec fn collected(&self) -> Seq<u8> {
        bytes_mut_content(self.buffer)
    }

    /// An empty collector, sized in advance for `capacity` bytes where the
    /// length of the stream is known.
    pub fn new(capacity: Option<usize>) -> (collector: Self)
        requires
            capacity matches Some(size) ==> size <= isize::MAX,
        ensures
            collector.collected() == Seq::<u8>::empty(),
    {
        let buffer = match capacity {
            Some(size) => byte_buf::buffer_with_capacity(size),
            None => byte_buf::empty_buffer(),
        };
        Self { buffer }
    }

    /// Takes in the next chunk of the stream. The answer is whether the
    /// stream goes on: an empty chunk is its end.
    pub fn feed(&mut self, chunk: &[u8]) -> (more: bool)
        requires
            old(self).collected().len() + chunk@.len() <= isize::MAX,
        ensures
            more == (chunk@.len() > 0),
            final(self).collected() == old(self).collected() + chunk@,
    {
        if chunk.len() == 0 {
            proof {
                assert(self.collected() + chunk@ =~= self.collected());
            }
            false
        } else {
            byte_buf::put_slice(&mut self.buffer, chunk);
            true
        }
    }

    /// The bytes collected, as one immutable buffer.
    pub fn finish(self) -> (bytes: Bytes)
        ensures
            bytes_content(bytes) == self.collected(),
    {
        byte_buf::freeze(self.buffer)
    }
}

} // verus!
