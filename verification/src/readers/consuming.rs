//! A reader that owns its bytes and gives them up as it reads.

use vstd::prelude::*;
use bytes::Bytes;
use crate::byte_buf;
use crate::byte_buf::bytes_content;
use crate::decode::be_value;
use crate::error::{Endidness, Error};
use crate::model::{lemma_valid_span, Cursor};
use crate::reader::{BinReader, OwnableBinReader};

verus! {

/// A reader over an owned buffer whose cursor cannot go back: moving it
/// forward removes the bytes it passes from the front of the buffer.
///
/// Every offset from the initial one up to the end stays valid, but the
/// reader holds only the bytes from its cursor on: a seek or a read behind the
/// cursor is refused as too small, and leaves the reader as it was.
pub struct ConsumingBinReader {
    initial_offset: usize,
    size: usize,
    data: Bytes,
    endidness: Endidness,
    consumed: Ghost<Seq<u8>>,
}

impl ConsumingBinReader {
    fn new(data: Bytes, initial_offset: usize, endidness: Endidness) -> (reader: Self)
        requires
            initial_offset + bytes_content(data).len() <= usize::MAX,
        ensures
            reader.wf(),
            reader.cursor() == Cursor::fresh(
                bytes_content(data),
                initial_offset as nat,
                endidness,
                true,
            ),
    {
        let size = byte_buf::len(&data);
        let reader = Self { initial_offset, size, data, endidness, consumed: Ghost(Seq::empty()) };
        proof {
            assert(Seq::<u8>::empty() + bytes_content(data) =~= bytes_content(data));
        }
        reader
    }

    /// The `num_bytes` bytes at the cursor, detached from the reader's buffer
    /// without copying; the cursor then stands behind them. A refused request
    /// leaves the reader as it was.
    pub fn next_n_bytes(&mut self, num_bytes: usize) -> (r: Result<Bytes, Error>)
        requires
            old(self).wf(),
        ensures
            final(self).wf(),
            r matches Ok(b) ==> old(self).cursor().next_bytes(num_bytes) == Ok::<Seq<u8>, Error>(
                bytes_content(b),
            ),
            r matches Err(e) ==> old(self).cursor().next_bytes(num_bytes) == Err::<
                Seq<u8>,
                Error,
            >(e),
            final(self).cursor() == old(self).cursor().after_read(num_bytes, r is Ok),
    {
        let current = self.current_offset();
        match self.validate_offset(current, num_bytes) {
            Err(e) => Err(e),
            Ok(()) => {
                proof {
                    lemma_valid_span(self.cursor(), current, num_bytes);
                }
                let ghost before = bytes_content(self.data);
                let head = byte_buf::split_to(&mut self.data, num_bytes);
                proof {
                    self.consumed@ = self.consumed@ + bytes_content(head);
                    assert(self.consumed@ + bytes_content(self.data) =~= old(self).consumed@
                        + before);
                    assert(bytes_content(head) =~= old(self).cursor().span(
                        current as int,
                        num_bytes as int,
                    ));
                }
                Ok(head)
            },
        }
    }

    /// Gives up the reader for the bytes that it has not read.
    pub fn into_bytes(self) -> (b: Bytes)
        requires
            self.wf(),
        ensures
            bytes_content(b) == self.cursor().rest(),
    {
        proof {
            assert((self.consumed@ + bytes_content(self.data)).skip(self.consumed@.len() as int)
                =~= bytes_content(self.data));
        }
        self.data
    }
}

impl<'r> BinReader<'r> for ConsumingBinReader {
    closed spec fn cursor(&self) -> Cursor {
        Cursor {
            bytes: self.consumed@ + bytes_content(self.data),
            base: self.initial_offset as nat,
            pos: self.consumed@.len(),
            order: self.endidness,
            consuming: true,
        }
    }

    closed spec fn wf(&self) -> bool {
        &&& self.size == self.consumed@.len() + bytes_content(self.data).len()
        &&& self.initial_offset + self.size <= usize::MAX
    }

    open spec fn consumes() -> bool {
        true
    }

    open spec fn infallible() -> bool {
        true
    }

    proof fn lemma_cursor_wf(&self) {
    }

    fn from_slice_with_offset(slice: &'r [u8], initial_offset: usize, endidness: Endidness) -> (r:
        Result<Self, Error>)
    {
        Ok(Self::new(byte_buf::copy_from_slice(slice), initial_offset, endidness))
    }

    fn size(&self) -> (n: usize) {
        self.size
    }

    fn initial_offset(&self) -> (n: usize) {
        self.initial_offset
    }

    fn current_offset(&self) -> (n: usize) {
        (self.size - byte_buf::remaining(&self.data)) + self.initial_offset
    }

    fn endidness(&self) -> (e: Endidness) {
        self.endidness
    }

    fn change_endidness(&mut self, endidness: Endidness) {
        self.endidness = endidness
    }

    fn as_ref(&self) -> (s: &[u8]) {
        proof {
            assert((self.consumed@ + bytes_content(self.data)).skip(self.consumed@.len() as int)
                =~= bytes_content(self.data));
        }
        byte_buf::as_slice(&self.data)
    }

    fn is_empty(&self) -> (b: bool) {
        byte_buf::is_empty(&self.data)
    }

    fn remaining(&self) -> (n: usize) {
        byte_buf::remaining(&self.data)
    }

    fn advance_to(&mut self, offset: usize) -> (r: Result<(), Error>)
        ensures
            offset < old(self).cursor().current_offset() ==> r is Err,
            old(self).cursor().lower_limit() <= offset < old(self).cursor().current_offset() ==> r
                == Err::<(), Error>(Error::OffsetTooSmall(offset)),
    {
        match self.validate_access(offset, 0) {
            Err(e) => Err(e),
            Ok(()) => {
                let distance = offset - self.current_offset();
                let ghost before = bytes_content(self.data);
                byte_buf::advance(&mut self.data, distance);
                proof {
                    self.consumed@ = self.consumed@ + before.take(distance as int);
                    assert(self.consumed@ + bytes_content(self.data) =~= old(self).consumed@
                        + before);
                }
                Ok(())
            },
        }
    }

    fn next_u8(&mut self) -> (r: Result<u8, Error>) {
        if self.is_empty() {
            Err(Error::NoMoreData)
        } else {
            let ghost before = bytes_content(self.data);
            let byte = byte_buf::get_u8(&mut self.data);
            proof {
                self.consumed@ = self.consumed@ + before.take(1);
                assert(self.consumed@ + bytes_content(self.data) =~= old(self).consumed@ + before);
                let c = old(self).cursor();
                assert(c.span(c.current_offset() as int, 1) =~= seq![byte]);
                reveal_with_fuel(be_value, 2);
                assert(seq![byte].drop_last() =~= Seq::<u8>::empty());
            }
            Ok(byte)
        }
    }
}

impl<'r> OwnableBinReader<'r> for ConsumingBinReader {
    fn from_bytes_with_offset(bytes: Bytes, initial_offset: usize, endidness: Endidness) -> (r:
        Result<Self, Error>)
    {
        Ok(Self::new(bytes, initial_offset, endidness))
    }
}

} // verus!
