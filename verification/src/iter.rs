//! A walk over what is left of a borrowed reader.

use vstd::prelude::*;
use crate::error::Endidness;
use crate::reader::BinReader;

verus! {

/// The state of a walk over the bytes that a borrowed reader has left: where
/// the walk stands, how far it goes, and the byte order it decodes in.
pub struct BorrowedBinReaderIter<'a, B> {
    reader: &'a B,
    cursor: usize,
    length: usize,
    endidness_override: Option<Endidness>,
}

impl<'a, B> BorrowedBinReaderIter<'a, B> {
    /// The reader that is walked over.
    pub closed spec fn reader(&self) -> &'a B {
        self.reader
    }

    /// The number of bytes walked over so far.
    pub closed spec fn walked(&self) -> nat {
        self.cursor as nat
    }

    /// The number of bytes that the walk covers.
    pub closed spec fn length(&self) -> nat {
        self.length as nat
    }

    /// The byte order given to the walk, if one was given.
    pub closed spec fn endidness_override(&self) -> Option<Endidness> {
        self.endidness_override
    }

    /// A walk over the bytes that `reader` has left, from the first of them.
    /// It decodes in `endidness_override` where that is given, and in the
    /// reader's own byte order where it is not.
    pub fn new<'r>(reader: &'a B, endidness_override: Option<Endidness>) -> (iter: Self) where
        B: BinReader<'r>,

        requires
            reader.wf(),
        ensures
            iter.reader() == reader,
            iter.walked() == 0,
            iter.length() == reader.cursor().remaining(),
            iter.endidness_override() == endidness_override,
    {
        Self { reader, cursor: 0, length: reader.remaining(), endidness_override }
    }

    /// The byte order that the walk decodes in.
    pub fn endidness<'r>(&self) -> (e: Endidness) where B: BinReader<'r>
        requires
            self.reader().wf(),
        ensures
            e == match self.endidness_override() {
                Some(given) => given,
                None => self.reader().cursor().order,
            },
    {
        match self.endidness_override {
            Some(given) => given,
            None => self.reader.endidness(),
        }
    }
}

} // verus!
