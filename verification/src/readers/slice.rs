//! A reader over bytes that the caller owns.

use vstd::prelude::*;
use vstd::slice::slice_subrange;
use crate::error::{Endidness, Error};
use crate::model::{lemma_valid_span, Cursor};
use crate::reader::BinReader;

verus! {

/// A reader over a borrowed slice. It copies nothing, and it is what every
/// sub-reader is.
pub struct SliceRefBinReader<'r> {
    initial_offset: usize,
    position: usize,
    data: &'r [u8],
    endidness: Endidness,
}

impl<'r> View for SliceRefBinReader<'r> {
    type V = Cursor;

    closed spec fn view(&self) -> Cursor {
        Cursor {
            bytes: self.data@,
            base: self.initial_offset as nat,
            pos: self.position as nat,
            order: self.endidness,
            consuming: false,
        }
    }
}

impl<'r> SliceRefBinReader<'r> {
    /// The representation invariant: the cursor lies within the data, and
    /// every offset fits in a `usize`.
    pub closed spec fn inv(&self) -> bool {
        &&& self.position <= self.data@.len()
        &&& self.initial_offset + self.data@.len() <= usize::MAX
    }

    /// A reader over `data` whose first byte is at `initial_offset`, with the
    /// cursor at that byte.
    pub fn new(data: &'r [u8], initial_offset: usize, endidness: Endidness) -> (reader: Self)
        requires
            initial_offset + data.len() <= usize::MAX,
        ensures
            reader.inv(),
            reader@ == Cursor::fresh(data@, initial_offset as nat, endidness, false),
    {
        Self { initial_offset, position: 0, data, endidness }
    }

    /// Moves the cursor by `amt` bytes, forwards or backwards, within the
    /// data.
    pub fn adj_pos(&mut self, amt: isize)
        requires
            old(self).inv(),
            0 <= old(self)@.pos + amt <= old(self)@.size(),
        ensures
            final(self).inv(),
            final(self)@ == old(self)@.moved_to(old(self)@.current_offset() + amt),
    {
        self.position = self.position.wrapping_add_signed(amt);
    }
}

impl<'r> BinReader<'r> for SliceRefBinReader<'r> {
    open spec fn cursor(&self) -> Cursor {
        self@
    }

    open spec fn wf(&self) -> bool {
        self.inv()
    }

    open spec fn consumes() -> bool {
        false
    }

    open spec fn infallible() -> bool {
        true
    }

    proof fn lemma_cursor_wf(&self) {
    }

    fn from_slice_with_offset(slice: &'r [u8], initial_offset: usize, endidness: Endidness) -> (r:
        Result<Self, Error>)
    {
        Ok(Self::new(slice, initial_offset, endidness))
    }

    fn size(&self) -> (n: usize) {
        self.data.len()
    }

    fn initial_offset(&self) -> (n: usize) {
        self.initial_offset
    }

    fn current_offset(&self) -> (n: usize) {
        self.position + self.initial_offset
    }

    fn endidness(&self) -> (e: Endidness) {
        self.endidness
    }

    fn change_endidness(&mut self, endidness: Endidness) {
        self.endidness = endidness
    }

    fn as_ref(&self) -> (s: &[u8]) {
        self.data
    }

    fn remaining(&self) -> (n: usize) {
        self.data.len() - self.position
    }

    fn advance_to(&mut self, offset: usize) -> (r: Result<(), Error>) {
        match self.validate_offset(offset, 0) {
            Err(e) => Err(e),
            Ok(()) => {
                self.position = offset - self.initial_offset;
                Ok(())
            },
        }
    }
}

/// A reader whose bytes stay where they are while the cursor moves, so that
/// what it has read can be handed out as a borrow of its own storage.
pub trait SliceableBinReader<'r>: BinReader<'r> {
    /// Such a reader never gives up the bytes behind its cursor.
    proof fn lemma_keeps_bytes(&self)
        requires
            self.wf(),
        ensures
            !self.cursor().consuming,
    ;

    /// The `num_bytes` bytes at the cursor, which then moves past them. A
    /// refused request leaves the cursor where it was.
    fn next_n_bytes(&mut self, num_bytes: usize) -> (r: Result<&[u8], Error>)
        requires
            old(self).wf(),
        ensures
            final(self).wf(),
            r matches Ok(s) ==> old(self).cursor().next_bytes(num_bytes) == Ok::<Seq<u8>, Error>(
                s@,
            ),
            r matches Err(e) ==> old(self).cursor().next_bytes(num_bytes) == Err::<
                Seq<u8>,
                Error,
            >(e),
            final(self).cursor() == old(self).cursor().after_read(num_bytes, r is Ok),
    {
        proof {
            self.lemma_cursor_wf();
            self.lemma_keeps_bytes();
        }
        let current = self.current_offset();
        match self.validate_offset(current, num_bytes) {
            Err(e) => Err(e),
            Ok(()) => {
                proof {
                    lemma_valid_span(self.cursor(), current, num_bytes);
                }
                let start = current - self.held_from();
                let _moved = self.advance_to(current + num_bytes);
                proof {
                    self.lemma_keeps_bytes();
                }
                Ok(slice_subrange(self.as_ref(), start, start + num_bytes))
            },
        }
    }

    /// A reader over the `num_bytes` bytes at the cursor, whose first byte is
    /// at offset `0`; the cursor then moves past them. A refused request
    /// leaves the cursor where it was.
    fn next_n_bytes_as_reader(&mut self, num_bytes: usize) -> (r: Result<
        SliceRefBinReader<'_>,
        Error,
    >)
        requires
            old(self).wf(),
        ensures
            final(self).wf(),
            r matches Ok(child) ==> old(self).cursor().next_bytes(num_bytes) matches Ok(s)
                && child.inv() && child@ == old(self).cursor().child(s, 0),
            r matches Err(e) ==> old(self).cursor().next_bytes(num_bytes) == Err::<
                Seq<u8>,
                Error,
            >(e),
            final(self).cursor() == old(self).cursor().after_read(num_bytes, r is Ok),
    {
        let endidness = self.endidness();
        match self.next_n_bytes(num_bytes) {
            Err(e) => Err(e),
            Ok(s) => Ok(SliceRefBinReader::new(s, 0, endidness)),
        }
    }

    /// A reader over the `num_bytes` bytes at the cursor, which keeps this
    /// reader's numbering: its first byte is at the offset where the cursor
    /// stood. The cursor then moves past the bytes. A refused request leaves
    /// the cursor where it was.
    fn next_n_bytes_as_reader_retain_offset(&mut self, num_bytes: usize) -> (r: Result<
        SliceRefBinReader<'_>,
        Error,
    >)
        requires
            old(self).wf(),
        ensures
            final(self).wf(),
            r matches Ok(child) ==> old(self).cursor().next_bytes(num_bytes) matches Ok(s)
                && child.inv() && child@ == old(self).cursor().child(
                s,
                old(self).cursor().current_offset(),
            ),
            r matches Err(e) ==> old(self).cursor().next_bytes(num_bytes) == Err::<
                Seq<u8>,
                Error,
            >(e),
            final(self).cursor() == old(self).cursor().after_read(num_bytes, r is Ok),
    {
        proof {
            self.lemma_cursor_wf();
        }
        let endidness = self.endidness();
        let current = self.current_offset();
        match self.next_n_bytes(num_bytes) {
            Err(e) => Err(e),
            Ok(s) => {
                proof {
                    lemma_valid_span(old(self).cursor(), current, num_bytes);
                }
                Ok(SliceRefBinReader::new(s, current, endidness))
            },
        }
    }
}

impl<'r> SliceableBinReader<'r> for SliceRefBinReader<'r> {
    proof fn lemma_keeps_bytes(&self) {
    }
}

} // verus!
