//! A reader over any owned store of bytes.

use vstd::prelude::*;
use vstd::slice::slice_to_vec;
use bytes::Bytes;
use crate::byte_buf;
use crate::byte_buf::bytes_content;
use crate::error::{Endidness, Error};
use crate::model::Cursor;
use crate::reader::BinReader;
use crate::readers::slice::SliceableBinReader;

verus! {

/// Something that holds bytes and can show them as a slice.
pub trait ByteStore: Sized {
    /// The bytes held, first to last.
    spec fn content(&self) -> Seq<u8>;

    /// The bytes held, as a slice.
    fn as_bytes(&self) -> (s: &[u8])
        ensures
            s@ == self.content(),
    ;

    /// A store that holds a copy of `slice`.
    fn copy_of(slice: &[u8]) -> (store: Self)
        ensures
            store.content() == slice@,
    ;
}

impl ByteStore for Vec<u8> {
    open spec fn content(&self) -> Seq<u8> {
        self@
    }

    fn as_bytes(&self) -> (s: &[u8]) {
        self.as_slice()
    }

    fn copy_of(slice: &[u8]) -> (store: Self) {
        slice_to_vec(slice)
    }
}

impl ByteStore for Bytes {
    open spec fn content(&self) -> Seq<u8> {
        bytes_content(*self)
    }

    fn as_bytes(&self) -> (s: &[u8]) {
        byte_buf::as_slice(self)
    }

    fn copy_of(slice: &[u8]) -> (store: Self) {
        byte_buf::copy_from_slice(slice)
    }
}

/// A reader that owns a store of bytes of any kind, with a cursor that can
/// be moved backwards and forwards freely.
pub struct SliceAsRefBinReader<R: ByteStore> {
    initial_offset: usize,
    position: usize,
    data: R,
    endidness: Endidness,
}

impl<R: ByteStore> SliceAsRefBinReader<R> {
    /// A reader over `data` whose first byte is at `initial_offset`, with the
    /// cursor at that byte.
    pub fn _new(data: R, initial_offset: usize, endidness: Endidness) -> (reader: Self)
        requires
            initial_offset + data.content().len() <= usize::MAX,
        ensures
            reader.wf(),
            reader.cursor() == Cursor::fresh(
                data.content(),
                initial_offset as nat,
                endidness,
                false,
            ),
    {
        Self { initial_offset, position: 0, data, endidness }
    }
}

impl<'r, R: ByteStore> BinReader<'r> for SliceAsRefBinReader<R> {
    closed spec fn cursor(&self) -> Cursor {
        Cursor {
            bytes: self.data.content(),
            base: self.initial_offset as nat,
            pos: self.position as nat,
            order: self.endidness,
            consuming: false,
        }
    }

    closed spec fn wf(&self) -> bool {
        &&& self.position <= self.data.content().len()
        &&& self.initial_offset + self.data.content().len() <= usize::MAX
    }

    open spec fn consumes() -> bool {
        false
    }

    open spec fn infallible() -> bool {
        true
    }

    proof fn lemma_cursor_wf(&self) {
    }

    fn from_slice_with_offset(slice: &'r [u8], initial_offset: usize, endidness: Endidness) -> (r:
        Result<Self, Error>)
    {
        Ok(Self::_new(R::copy_of(slice), initial_offset, endidness))
    }

    fn size(&self) -> (n: usize) {
        self.data.as_bytes().len()
    }

    fn initial_offset(&self) -> (n: usize) {
        self.initial_offset
    }

    fn current_offset(&self) -> (n: usize) {
        self.position + self.initial_offset
    }

    fn endidness(&self) -> (e: Endidness) {
        self.endidness
    }

    fn change_endidness(&mut self, endidness: Endidness) {
        self.endidness = endidness
    }

    fn as_ref(&self) -> (s: &[u8]) {
        self.data.as_bytes()
    }

    fn remaining(&self) -> (n: usize) {
        self.data.as_bytes().len() - self.position
    }

    fn advance_to(&mut self, offset: usize) -> (r: Result<(), Error>) {
        match self.validate_offset(offset, 0) {
            Err(e) => Err(e),
            Ok(()) => {
                self.position = offset - self.initial_offset;
                Ok(())
            },
        }
    }
}

impl<'r, R: ByteStore> SliceableBinReader<'r> for SliceAsRefBinReader<R> {
    proof fn lemma_keeps_bytes(&self) {
    }
}

} // verus!
