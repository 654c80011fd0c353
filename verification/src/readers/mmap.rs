//! A reader over a memory map.

use vstd::prelude::*;
use bytes::Bytes;
use memmap2::Mmap;
use crate::byte_buf;
use crate::error::{Endidness, Error};
use crate::mapping;
use crate::mapping::mmap_content;
use crate::model::Cursor;
use crate::reader::{BinReader, OwnableBinReader};
use crate::readers::slice::SliceableBinReader;

verus! {

/// A reader over a read-only memory map: a map of a file, or an anonymous map
/// that holds a copy of some bytes.
///
/// The reader holds the map only. Whoever maps a file keeps the file, and any
/// lock on it, for as long as the reader lives.
pub struct MmapBinReader {
    initial_offset: usize,
    position: usize,
    map: Mmap,
    endidness: Endidness,
}

impl MmapBinReader {
    /// A reader over `map` whose first byte is at `initial_offset`, with the
    /// cursor at that byte.
    pub fn new(initial_offset: usize, map: Mmap, endidness: Endidness) -> (reader: Self)
        requires
            initial_offset + mmap_content(map).len() <= usize::MAX,
        ensures
            reader.wf(),
            reader.cursor() == Cursor::fresh(
                mmap_content(map),
                initial_offset as nat,
                endidness,
                false,
            ),
    {
        Self { initial_offset, position: 0, map, endidness }
    }

    /// A reader over `map` whose first byte is at `initial_offset`, unless
    /// the offsets of its bytes would not all fit in a `usize`: then the map
    /// is handed back.
    pub fn try_new(initial_offset: usize, map: Mmap, endidness: Endidness) -> (r: Result<
        Self,
        Mmap,
    >)
        ensures
            r matches Ok(reader) ==> reader.wf() && reader.cursor() == Cursor::fresh(
                mmap_content(map),
                initial_offset as nat,
                endidness,
                false,
            ),
            r matches Err(m) ==> m == map,
            r is Ok <==> initial_offset + mmap_content(map).len() <= usize::MAX,
    {
        let length = mapping::as_slice(&map).len();
        if length <= usize::MAX - initial_offset {
            Ok(Self::new(initial_offset, map, endidness))
        } else {
            Err(map)
        }
    }
}

impl<'r> BinReader<'r> for MmapBinReader {
    closed spec fn cursor(&self) -> Cursor {
        Cursor {
            bytes: mmap_content(self.map),
            base: self.initial_offset as nat,
            pos: self.position as nat,
            order: self.endidness,
            consuming: false,
        }
    }

    closed spec fn wf(&self) -> bool {
        &&& self.position <= mmap_content(self.map).len()
        &&& self.initial_offset + mmap_content(self.map).len() <= usize::MAX
    }

    open spec fn consumes() -> bool {
        false
    }

    open spec fn infallible() -> bool {
        false
    }

    proof fn lemma_cursor_wf(&self) {
    }

    fn from_slice_with_offset(slice: &'r [u8], initial_offset: usize, endidness: Endidness) -> (r:
        Result<Self, Error>)
    {
        let mut writable = match mapping::map_anon(slice.len()) {
            Err(e) => {
                return Err(Error::IoError(e));
            },
            Ok(m) => m,
        };
        mapping::fill(&mut writable, slice);
        match mapping::make_read_only(writable) {
            Err(e) => Err(Error::IoError(e)),
            Ok(map) => Ok(Self::new(initial_offset, map, endidness)),
        }
    }

    fn size(&self) -> (n: usize) {
        mapping::as_slice(&self.map).len()
    }

    fn initial_offset(&self) -> (n: usize) {
        self.initial_offset
    }

    fn current_offset(&self) -> (n: usize) {
        self.initial_offset + self.position
    }

    fn endidness(&self) -> (e: Endidness) {
        self.endidness
    }

    fn change_endidness(&mut self, endidness: Endidness) {
        self.endidness = endidness
    }

    fn as_ref(&self) -> (s: &[u8]) {
        mapping::as_slice(&self.map)
    }

    fn remaining(&self) -> (n: usize) {
        self.size() - self.position
    }

    fn advance_to(&mut self, offset: usize) -> (r: Result<(), Error>) {
        match self.validate_offset(offset, 0) {
            Err(e) => Err(e),
            Ok(()) => {
                self.position = offset - self.initial_offset;
                Ok(())
            },
        }
    }
}

impl<'r> SliceableBinReader<'r> for MmapBinReader {
    proof fn lemma_keeps_bytes(&self) {
    }
}

impl<'r> OwnableBinReader<'r> for MmapBinReader {
    fn from_bytes_with_offset(bytes: Bytes, initial_offset: usize, endidness: Endidness) -> (r:
        Result<Self, Error>)
    {
        Self::from_slice_with_offset(byte_buf::as_slice(&bytes), initial_offset, endidness)
    }
}

} // verus!
