//! A reader that owns its bytes and can revisit them.

use vstd::prelude::*;
use bytes::Bytes;
use crate::byte_buf;
use crate::byte_buf::bytes_content;
use crate::error::{Endidness, Error};
use crate::model::Cursor;
use crate::reader::{BinReader, OwnableBinReader};
use crate::readers::slice::SliceableBinReader;

verus! {

/// A reader over an owned, fixed buffer, with a cursor that can be moved
/// backwards and forwards freely.
pub struct RandomAccessBinReader {
    initial_offset: usize,
    position: usize,
    data: Bytes,
    endidness: Endidness,
}

impl RandomAccessBinReader {
    fn new(data: Bytes, initial_offset: usize, endidness: Endidness) -> (reader: Self)
        requires
            initial_offset + bytes_content(data).len() <= usize::MAX,
        ensures
            reader.wf(),
            reader.cursor() == Cursor::fresh(
                bytes_content(data),
                initial_offset as nat,
                endidness,
                false,
            ),
    {
        Self { initial_offset, position: 0, data, endidness }
    }
}

impl<'r> BinReader<'r> for RandomAccessBinReader {
    closed spec fn cursor(&self) -> Cursor {
        Cursor {
            bytes: bytes_content(self.data),
            base: self.initial_offset as nat,
            pos: self.position as nat,
            order: self.endidness,
            consuming: false,
        }
    }

    closed spec fn wf(&self) -> bool {
        &&& self.position <= bytes_content(self.data).len()
        &&& self.initial_offset + bytes_content(self.data).len() <= usize::MAX
    }

    open spec fn consumes() -> bool {
        false
    }

    open spec fn infallible() -> bool {
        true
    }

    proof fn lemma_cursor_wf(&self) {
    }

    fn from_slice_with_offset(slice: &'r [u8], initial_offset: usize, endidness: Endidness) -> (r:
        Result<Self, Error>)
    {
        Ok(Self::new(byte_buf::copy_from_slice(slice), initial_offset, endidness))
    }

    fn size(&self) -> (n: usize) {
        byte_buf::len(&self.data)
    }

    fn initial_offset(&self) -> (n: usize) {
        self.initial_offset
    }

    fn current_offset(&self) -> (n: usize) {
        self.position + self.initial_offset
    }

    fn endidness(&self) -> (e: Endidness) {
        self.endidness
    }

    fn change_endidness(&mut self, endidness: Endidness) {
        self.endidness = endidness
    }

    fn as_ref(&self) -> (s: &[u8]) {
        byte_buf::as_slice(&self.data)
    }

    fn remaining(&self) -> (n: usize) {
        self.size() - self.position
    }

    fn advance_to(&mut self, offset: usize) -> (r: Result<(), Error>) {
        match self.validate_offset(offset, 0) {
            Err(e) => Err(e),
            Ok(()) => {
                self.position = offset - self.initial_offset;
                Ok(())
            },
        }
    }
}

impl<'r> SliceableBinReader<'r> for RandomAccessBinReader {
    proof fn lemma_keeps_bytes(&self) {
    }
}

impl<'r> OwnableBinReader<'r> for RandomAccessBinReader {
    fn from_bytes_with_offset(bytes: Bytes, initial_offset: usize, endidness: Endidness) -> (r:
        Result<Self, Error>)
    {
        Ok(Self::new(bytes, initial_offset, endidness))
    }
}

} // verus!
