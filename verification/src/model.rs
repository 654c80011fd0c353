//! The mathematical model of a reader: a cursor over a fixed byte sequence,
//! addressed in a logical offset space.

use vstd::prelude::*;
use crate::decode::{be_value, le_value};
use crate::error::{Endidness, Error};

verus! {

/// What a reader is, as far as its contracts are concerned.
///
/// Byte `i` of `bytes` lives at offset `base + i`. The cursor stands at index
/// `pos`, that is at offset `base + pos`. The valid offsets run from `base` to
/// `base + bytes.len()` for every reader. A consuming reader has given up the
/// bytes before its cursor: an offset there stays valid, but nothing can be
/// read at it or sought to.
pub ghost struct Cursor {
    /// Every byte the reader was made over.
    pub bytes: Seq<u8>,
    /// The offset of the first byte.
    pub base: nat,
    /// The index of the cursor, counted from the first byte.
    pub pos: nat,
    /// The byte order that the dispatching reads use.
    pub order: Endidness,
    /// Whether the bytes before the cursor are gone.
    pub consuming: bool,
}

impl Cursor {
    /// The cursor right after construction over `bytes`.
    pub open spec fn fresh(bytes: Seq<u8>, base: nat, order: Endidness, consuming: bool) -> Cursor {
        Cursor { bytes, base, pos: 0, order, consuming }
    }

    /// The cursor lies within the bytes, and every offset fits in a `usize`.
    pub open spec fn wf(self) -> bool {
        &&& self.pos <= self.bytes.len()
        &&& self.base + self.bytes.len() <= usize::MAX
    }

    /// The number of bytes the reader was made over.
    pub open spec fn size(self) -> nat {
        self.bytes.len()
    }

    /// The offset of the cursor.
    pub open spec fn current_offset(self) -> nat {
        self.base + self.pos
    }

    /// The number of bytes from the cursor to the end.
    pub open spec fn remaining(self) -> nat {
        (self.bytes.len() - self.pos) as nat
    }

    /// The lowest valid offset: the offset of the first byte.
    pub open spec fn lower_limit(self) -> nat {
        self.base
    }

    /// The offset of the first byte that the reader still holds. A consuming
    /// reader holds the bytes from its cursor on; any other holds them all.
    pub open spec fn window_start(self) -> nat {
        if self.consuming {
            self.base + self.pos
        } else {
            self.base
        }
    }

    /// The highest offset that can be asked for: one past the last byte.
    pub open spec fn upper_limit(self) -> nat {
        self.base + self.bytes.len()
    }

    /// The bytes that the reader still holds, the first of them at
    /// `window_start()`.
    pub open spec fn window(self) -> Seq<u8> {
        if self.consuming {
            self.bytes.skip(self.pos as int)
        } else {
            self.bytes
        }
    }

    /// The bytes from the cursor to the end.
    pub open spec fn rest(self) -> Seq<u8> {
        self.bytes.skip(self.pos as int)
    }

    /// The verdict on a request for `length` bytes at `offset`. The rules are
    /// tried in this order, and the first that applies decides.
    pub open spec fn validate(self, offset: usize, length: usize) -> Result<(), Error> {
        if length > 0 && self.remaining() == 0 {
            Err(Error::NoMoreData)
        } else if offset < self.lower_limit() {
            Err(Error::OffsetTooSmall(offset))
        } else if offset > self.upper_limit() {
            Err(Error::OffsetTooLarge(offset))
        } else if offset + length > self.upper_limit() {
            Err(Error::NotEnoughData(length, self.remaining() as usize))
        } else {
            Ok(())
        }
    }

    /// The verdict on a request to seek to `offset`, or to read `length` bytes
    /// there: the verdict of `validate`, and for a request that passes it,
    /// whether the reader still holds what is asked for. An offset behind the
    /// cursor of a consuming reader is valid, but its bytes are gone: it is
    /// refused as too small.
    pub open spec fn reach(self, offset: usize, length: usize) -> Result<(), Error> {
        match self.validate(offset, length) {
            Err(e) => Err(e),
            Ok(()) => if offset < self.window_start() {
                Err(Error::OffsetTooSmall(offset))
            } else {
                Ok(())
            },
        }
    }

    /// The `length` bytes that start at `offset`.
    pub open spec fn span(self, offset: int, length: int) -> Seq<u8> {
        self.bytes.subrange(offset - self.base, offset - self.base + length)
    }

    /// The same reader with its cursor at `offset`.
    pub open spec fn moved_to(self, offset: int) -> Cursor {
        Cursor { pos: (offset - self.base) as nat, ..self }
    }

    /// The same reader with another byte order.
    pub open spec fn with_order(self, order: Endidness) -> Cursor {
        Cursor { order, ..self }
    }

    /// What a read of the single byte at `offset` gives. The offset one past
    /// the last byte is valid for a seek, but holds no byte.
    pub open spec fn byte_at(self, offset: usize) -> Result<u8, Error> {
        match self.reach(offset, 0) {
            Err(e) => Err(e),
            Ok(()) => if offset >= self.upper_limit() {
                Err(Error::OffsetTooLarge(offset))
            } else {
                Ok(self.bytes[offset - self.base])
            },
        }
    }

    /// What a read of `length` bytes at `offset` gives.
    pub open spec fn bytes_at(self, offset: usize, length: usize) -> Result<Seq<u8>, Error> {
        match self.reach(offset, length) {
            Err(e) => Err(e),
            Ok(()) => Ok(self.span(offset as int, length as int)),
        }
    }

    /// What a read of an unsigned `width`-byte number at `offset` gives, in
    /// the byte order `order`.
    pub open spec fn uint_at(self, offset: usize, width: usize, order: Endidness) -> Result<
        nat,
        Error,
    > {
        match order {
            Endidness::Unknown => Err(Error::UnknownEndidness),
            Endidness::Big => match self.reach(offset, width) {
                Err(e) => Err(e),
                Ok(()) => Ok(be_value(self.span(offset as int, width as int))),
            },
            Endidness::Little => match self.reach(offset, width) {
                Err(e) => Err(e),
                Ok(()) => Ok(le_value(self.span(offset as int, width as int))),
            },
        }
    }

    /// What a read of an unsigned `width`-byte number at the cursor gives.
    pub open spec fn next_uint(self, width: usize, order: Endidness) -> Result<nat, Error> {
        self.uint_at(self.current_offset() as usize, width, order)
    }

    /// What a read of `length` bytes at the cursor gives.
    pub open spec fn next_bytes(self, length: usize) -> Result<Seq<u8>, Error> {
        self.bytes_at(self.current_offset() as usize, length)
    }

    /// The reader after a read of `length` bytes at the cursor: moved past
    /// them if the read succeeded, untouched if it was refused.
    pub open spec fn after_read(self, length: usize, succeeded: bool) -> Cursor {
        if succeeded {
            self.moved_to(self.current_offset() + length)
        } else {
            self
        }
    }

    /// What the distance from the cursor forward to `offset` is.
    pub open spec fn relative_offset(self, offset: usize) -> Result<usize, Error> {
        match self.validate(offset, 0) {
            Err(e) => Err(e),
            Ok(()) => if offset < self.current_offset() {
                Err(Error::OffsetTooSmall(offset))
            } else {
                Ok((offset - self.current_offset()) as usize)
            },
        }
    }

    /// What a request for the bytes from offset `start` up to offset `end`
    /// gives.
    pub open spec fn range(self, start: usize, end: usize) -> Result<Seq<u8>, Error> {
        if end < start {
            Err(Error::OffsetTooSmall(end))
        } else {
            self.bytes_at(start, (end - start) as usize)
        }
    }

    /// The reader made over `bytes`, a part of this reader's bytes, with its
    /// first byte at `base`: it borrows, and it inherits the byte order.
    pub open spec fn child(self, bytes: Seq<u8>, base: nat) -> Cursor {
        Cursor::fresh(bytes, base, self.order, false)
    }

    /// The verdict on a move of the cursor by `amount`: the offset that the
    /// move lands on, or why it is refused. The move aims at the offset of the
    /// cursor plus `amount`, as a plain sum; an aim below zero is too small, one
    /// beyond the range of `usize` is too large, and any other is judged as a
    /// seek to it is.
    pub open spec fn shifted(self, amount: isize) -> Result<usize, Error> {
        let target = self.current_offset() + amount;
        if target < 0 {
            Err(Error::OffsetTooSmall(0))
        } else if target > usize::MAX {
            Err(Error::OffsetTooLarge(usize::MAX))
        } else {
            match self.reach(target as usize, 0) {
                Err(e) => Err(e),
                Ok(()) => Ok(target as usize),
            }
        }
    }
}

/// A request that is granted names bytes that exist and that the reader
/// still holds.
pub proof fn lemma_valid_span(c: Cursor, offset: usize, length: usize)
    requires
        c.wf(),
        c.reach(offset, length) is Ok,
    ensures
        c.window_start() <= offset,
        offset + length <= c.upper_limit(),
        c.window_start() + c.window().len() == c.upper_limit(),
        c.span(offset as int, length as int) == c.window().subrange(
            offset - c.window_start(),
            offset - c.window_start() + length,
        ),
        c.span(offset as int, length as int).len() == length,
{
    assert(c.span(offset as int, length as int) =~= c.window().subrange(
        offset - c.window_start(),
        offset - c.window_start() + length,
    ));
}

} // verus!
