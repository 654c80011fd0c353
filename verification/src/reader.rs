//! The capability contract shared by every reader.

use vstd::prelude::*;
use vstd::slice::slice_subrange;
use bytes::Bytes;
use crate::byte_buf;
use crate::byte_buf::bytes_content;
use crate::decode::{
    as_i128, as_i16, as_i32, as_i64, as_i8, as_u128, as_u16, as_u32, as_u64, as_u8, decode_be,
    decode_le, lemma_be_value_bound, lemma_le_value_bound, lemma_pow256_values, pow256, to_i128,
    to_i16, to_i32, to_i64, to_i8,
};
use crate::error::{Endidness, Error};
use crate::model::{lemma_valid_span, Cursor};
use crate::readers::slice::SliceRefBinReader;

verus! {

/// A cursor over binary data, whatever holds the bytes.
///
/// Offsets are logical: the first byte of a reader made with an initial
/// offset of 100 is at offset 100. Every read and seek is validated before
/// anything is touched, so a refused operation leaves the reader as it was.
///
/// The valid offsets of a reader run from its initial offset to one past its
/// last byte, and stay so whatever is read. A consuming reader gives up the
/// bytes that its cursor has passed: every seek and every read behind its
/// cursor is refused as `OffsetTooSmall`, after validation and with the
/// cursor unchanged.
///
/// The cursor is a plain field: the methods that move it take `&mut self`, and
/// a reader is advanced by one caller at a time.
pub trait BinReader<'r>: Sized {
    /// The mathematical model of this reader.
    spec fn cursor(&self) -> Cursor;

    /// The representation invariant.
    spec fn wf(&self) -> bool;

    /// Whether readers of this kind give up the bytes behind their cursor.
    spec fn consumes() -> bool;

    /// Whether making a reader of this kind over bytes in memory always
    /// succeeds. Where it does not, the operating system has a say.
    spec fn infallible() -> bool;

    /// A well-formed reader has a well-formed model, of the kind that its type
    /// says.
    proof fn lemma_cursor_wf(&self)
        requires
            self.wf(),
        ensures
            self.cursor().wf(),
            self.cursor().consuming == Self::consumes(),
    ;

    /// Makes a reader over a copy or a borrow of `slice`, whose first byte is
    /// at `initial_offset`. Where `Ok` comes back, the cursor is at the first
    /// byte.
    fn from_slice_with_offset(slice: &'r [u8], initial_offset: usize, endidness: Endidness) -> (r:
        Result<Self, Error>)
        requires
            initial_offset + slice@.len() <= usize::MAX,
        ensures
            r matches Ok(reader) ==> reader.wf() && reader.cursor() == Cursor::fresh(
                slice@,
                initial_offset as nat,
                endidness,
                Self::consumes(),
            ),
            r matches Err(e) ==> e is IoError,
            Self::infallible() ==> r is Ok,
    ;

    /// The number of bytes the reader was made over.
    fn size(&self) -> (n: usize)
        requires
            self.wf(),
        ensures
            n == self.cursor().size(),
    ;

    /// The offset of the first byte.
    fn initial_offset(&self) -> (n: usize)
        requires
            self.wf(),
        ensures
            n == self.cursor().base,
    ;

    /// The offset of the cursor.
    fn current_offset(&self) -> (n: usize)
        requires
            self.wf(),
        ensures
            n == self.cursor().current_offset(),
    ;

    /// The byte order that the dispatching reads use.
    fn endidness(&self) -> (e: Endidness)
        requires
            self.wf(),
        ensures
            e == self.cursor().order,
    ;

    /// Sets the byte order that the dispatching reads use.
    fn change_endidness(&mut self, endidness: Endidness)
        requires
            old(self).wf(),
        ensures
            final(self).wf(),
            final(self).cursor() == old(self).cursor().with_order(endidness),
    ;

    /// The bytes that the reader still holds; the first of them is at
    /// `held_from()`. A consuming reader holds the bytes from its cursor on,
    /// any other reader all of its bytes.
    fn as_ref(&self) -> (s: &[u8])
        requires
            self.wf(),
        ensures
            s@ == self.cursor().window(),
    ;

    /// Moves the cursor to `offset`, if `offset` is valid and the reader can
    /// still go there: a consuming reader refuses an offset behind its cursor
    /// as too small.
    fn advance_to(&mut self, offset: usize) -> (r: Result<(), Error>)
        requires
            old(self).wf(),
        ensures
            final(self).wf(),
            r == old(self).cursor().reach(offset, 0),
            r is Ok ==> final(self).cursor() == old(self).cursor().moved_to(offset as int),
            r is Err ==> final(self).cursor() == old(self).cursor(),
    ;

    /// Makes a reader over `slice` whose first byte is at offset `0`.
    fn from_slice(slice: &'r [u8], endidness: Endidness) -> (r: Result<Self, Error>)
        ensures
            r matches Ok(reader) ==> reader.wf() && reader.cursor() == Cursor::fresh(
                slice@,
                0,
                endidness,
                Self::consumes(),
            ),
            r matches Err(e) ==> e is IoError,
            Self::infallible() ==> r is Ok,
    {
        proof {
            assert(slice@.len() == slice.len());
        }
        Self::from_slice_with_offset(slice, 0, endidness)
    }

    /// The lowest valid offset: the initial offset, whatever has been read.
    fn lower_offset_limit(&self) -> (n: usize)
        requires
            self.wf(),
        ensures
            n == self.cursor().lower_limit(),
    {
        self.initial_offset()
    }

    /// The highest offset that can be asked for: the offset one past the last
    /// byte.
    fn upper_offset_limit(&self) -> (n: usize)
        requires
            self.wf(),
        ensures
            n == self.cursor().upper_limit(),
    {
        proof {
            self.lemma_cursor_wf();
        }
        self.size() + self.initial_offset()
    }

    /// The number of bytes from the cursor to the end.
    fn remaining(&self) -> (n: usize)
        requires
            self.wf(),
        ensures
            n == self.cursor().remaining(),
    {
        proof {
            self.lemma_cursor_wf();
        }
        self.upper_offset_limit() - self.current_offset()
    }

    /// Whether the cursor has reached the end.
    fn is_empty(&self) -> (b: bool)
        requires
            self.wf(),
        ensures
            b == (self.cursor().remaining() == 0),
    {
        self.remaining() == 0
    }

    /// Decides whether `size` bytes can be read at `offset`.
    fn validate_offset(&self, offset: usize, size: usize) -> (r: Result<(), Error>)
        requires
            self.wf(),
        ensures
            r == self.cursor().validate(offset, size),
    {
        proof {
            self.lemma_cursor_wf();
        }
        let upper = self.upper_offset_limit();
        if size > 0 && self.is_empty() {
            Err(Error::NoMoreData)
        } else if offset < self.lower_offset_limit() {
            Err(Error::OffsetTooSmall(offset))
        } else if offset > upper {
            Err(Error::OffsetTooLarge(offset))
        } else if size > upper - offset {
            Err(Error::NotEnoughData(size, self.remaining()))
        } else {
            Ok(())
        }
    }

    /// The offset of the first byte that the reader still holds: the offset
    /// of the cursor for a consuming reader, the initial offset for any other.
    fn held_from(&self) -> (n: usize)
        requires
            self.wf(),
        ensures
            n == self.cursor().window_start(),
    {
        proof {
            self.lemma_cursor_wf();
        }
        self.upper_offset_limit() - self.as_ref().len()
    }

    /// Decides whether the reader can seek to `offset`, or read `size` bytes
    /// there: the request must be valid, and the reader must still hold what
    /// is asked for. An offset behind the cursor of a consuming reader is
    /// refused as too small.
    fn validate_access(&self, offset: usize, size: usize) -> (r: Result<(), Error>)
        requires
            self.wf(),
        ensures
            r == self.cursor().reach(offset, size),
    {
        match self.validate_offset(offset, size) {
            Err(e) => Err(e),
            Ok(()) => {
                if offset < self.held_from() {
                    Err(Error::OffsetTooSmall(offset))
                } else {
                    Ok(())
                }
            },
        }
    }

    /// Moves the cursor by `num_bytes`, forwards or backwards, if the offset
    /// that this aims at is one that `advance_to` accepts. An aim below zero
    /// is refused as `OffsetTooSmall(0)`, one beyond the range of `usize` as
    /// `OffsetTooLarge(usize::MAX)`.
    fn advance_by(&mut self, num_bytes: isize) -> (r: Result<(), Error>)
        requires
            old(self).wf(),
        ensures
            final(self).wf(),
            old(self).cursor().shifted(num_bytes) matches Ok(target) ==> r is Ok
                && final(self).cursor() == old(self).cursor().moved_to(target as int),
            old(self).cursor().shifted(num_bytes) matches Err(e) ==> r == Err::<(), Error>(e)
                && final(self).cursor() == old(self).cursor(),
    {
        let current = self.current_offset();
        if num_bytes >= 0 {
            let forward = num_bytes as usize;
            if forward > usize::MAX - current {
                Err(Error::OffsetTooLarge(usize::MAX))
            } else {
                self.advance_to(current + forward)
            }
        } else {
            let back = (-(num_bytes + 1)) as usize + 1;
            if back > current {
                Err(Error::OffsetTooSmall(0))
            } else {
                self.advance_to(current - back)
            }
        }
    }

    /// The byte at `offset`; the cursor stays. A consuming reader refuses an
    /// offset behind its cursor as too small.
    fn u8_at(&self, offset: usize) -> (r: Result<u8, Error>)
        requires
            self.wf(),
        ensures
            r == self.cursor().byte_at(offset),
    {
        proof {
            self.lemma_cursor_wf();
        }
        match self.validate_access(offset, 0) {
            Err(e) => Err(e),
            Ok(()) => {
                if offset >= self.upper_offset_limit() {
                    Err(Error::OffsetTooLarge(offset))
                } else {
                    let first = self.held_from();
                    let data = self.as_ref();
                    Ok(data[offset - first])
                }
            },
        }
    }

    /// The `num_bytes` bytes that start at `offset`; the cursor stays. A
    /// consuming reader refuses an offset behind its cursor as too small.
    fn subseq(&self, offset: usize, num_bytes: usize) -> (r: Result<&[u8], Error>)
        requires
            self.wf(),
        ensures
            r matches Ok(s) ==> self.cursor().bytes_at(offset, num_bytes) == Ok::<Seq<u8>, Error>(
                s@,
            ),
            r matches Err(e) ==> self.cursor().bytes_at(offset, num_bytes) == Err::<
                Seq<u8>,
                Error,
            >(e),
    {
        proof {
            self.lemma_cursor_wf();
        }
        match self.validate_access(offset, num_bytes) {
            Err(e) => Err(e),
            Ok(()) => {
                proof {
                    lemma_valid_span(self.cursor(), offset, num_bytes);
                }
                let start = offset - self.held_from();
                Ok(slice_subrange(self.as_ref(), start, start + num_bytes))
            },
        }
    }

    /// The unsigned number held in the `width` bytes at `offset`, read in the
    /// byte order `endidness`; the cursor stays. A consuming reader refuses an
    /// offset behind its cursor as too small.
    fn uint_at(&self, offset: usize, width: usize, endidness: Endidness) -> (r: Result<u128, Error>)
        requires
            self.wf(),
            width <= 16,
        ensures
            r matches Ok(v) ==> self.cursor().uint_at(offset, width, endidness) == Ok::<nat, Error>(
                v as nat,
            ) && v < pow256(width as nat),
            r matches Err(e) ==> self.cursor().uint_at(offset, width, endidness) == Err::<
                nat,
                Error,
            >(e),
    {
        match endidness {
            Endidness::Unknown => Err(Error::UnknownEndidness),
            Endidness::Big => match self.subseq(offset, width) {
                Err(e) => Err(e),
                Ok(s) => {
                    proof {
                        self.lemma_cursor_wf();
                        lemma_valid_span(self.cursor(), offset, width);
                        lemma_be_value_bound(s@);
                    }
                    Ok(decode_be(s))
                },
            },
            Endidness::Little => match self.subseq(offset, width) {
                Err(e) => Err(e),
                Ok(s) => {
                    proof {
                        self.lemma_cursor_wf();
                        lemma_valid_span(self.cursor(), offset, width);
                        lemma_le_value_bound(s@);
                    }
                    Ok(decode_le(s))
                },
            },
        }
    }

    /// The byte at the cursor; the cursor stays.
    fn current_u8(&self) -> (r: Result<u8, Error>)
        requires
            self.wf(),
        ensures
            r == self.cursor().byte_at(self.cursor().current_offset() as usize),
    {
        self.u8_at(self.current_offset())
    }

    /// The distance from the cursor forward to the valid offset `abs_offset`.
    /// An offset behind the cursor is too small to have one.
    fn relative_offset(&self, abs_offset: usize) -> (r: Result<usize, Error>)
        requires
            self.wf(),
        ensures
            r == self.cursor().relative_offset(abs_offset),
    {
        match self.validate_offset(abs_offset, 0) {
            Err(e) => Err(e),
            Ok(()) => {
                let current = self.current_offset();
                if abs_offset < current {
                    Err(Error::OffsetTooSmall(abs_offset))
                } else {
                    Ok(abs_offset - current)
                }
            },
        }
    }

    /// The bytes from offset `start` up to, not including, offset `end`; the
    /// cursor stays. An `end` below `start` is refused as too small, and so is
    /// a `start` behind the cursor of a consuming reader.
    fn range(&self, start: usize, end: usize) -> (r: Result<&[u8], Error>)
        requires
            self.wf(),
        ensures
            r matches Ok(s) ==> self.cursor().range(start, end) == Ok::<Seq<u8>, Error>(s@),
            r matches Err(e) ==> self.cursor().range(start, end) == Err::<Seq<u8>, Error>(e),
    {
        if end < start {
            Err(Error::OffsetTooSmall(end))
        } else {
            self.subseq(start, end - start)
        }
    }

    /// The bytes from the cursor to the end; the cursor stays.
    fn get_remaining(&self) -> (r: Result<&[u8], Error>)
        requires
            self.wf(),
        ensures
            r matches Ok(s) && s@ == self.cursor().rest(),
    {
        proof {
            self.lemma_cursor_wf();
        }
        let start = self.current_offset() - self.held_from();
        let data = self.as_ref();
        proof {
            assert(self.cursor().window().subrange(start as int, data@.len() as int)
                =~= self.cursor().rest());
        }
        Ok(slice_subrange(data, start, data.len()))
    }

    /// Fills `buf` with the bytes that start at `offset`; the cursor stays. A
    /// refused request leaves `buf` as it was. A consuming reader refuses an
    /// offset behind its cursor as too small.
    fn bytes_at(&self, offset: usize, buf: &mut [u8]) -> (r: Result<(), Error>)
        requires
            self.wf(),
        ensures
            final(buf)@.len() == old(buf)@.len(),
            r matches Ok(_) ==> self.cursor().bytes_at(offset, old(buf)@.len() as usize) == Ok::<
                Seq<u8>,
                Error,
            >(final(buf)@),
            r matches Err(e) ==> self.cursor().bytes_at(offset, old(buf)@.len() as usize) == Err::<
                Seq<u8>,
                Error,
            >(e) && final(buf)@ == old(buf)@,
    {
        let n: usize = buf.len();
        match self.subseq(offset, n) {
            Err(e) => Err(e),
            Ok(s) => {
                proof {
                    self.lemma_cursor_wf();
                    lemma_valid_span(self.cursor(), offset, n);
                }
                let mut i: usize = 0;
                while i < n
                    invariant
                        i <= n,
                        n == buf@.len(),
                        n == s@.len(),
                        forall|j: int| 0 <= j < i ==> buf@[j] == s@[j],
                    decreases n - i,
                {
                    buf[i] = s[i];
                    i = i + 1;
                }
                proof {
                    assert(buf@ =~= s@);
                }
                Ok(())
            },
        }
    }

    /// Whether the bytes at the cursor begin with `prefix`; the cursor stays.
    fn next_bytes_are(&self, prefix: &[u8]) -> (r: Result<bool, Error>)
        requires
            self.wf(),
        ensures
            r matches Ok(b) ==> self.cursor().next_bytes(prefix@.len() as usize) matches Ok(s)
                && b == (s == prefix@),
            r matches Err(e) ==> self.cursor().next_bytes(prefix@.len() as usize) == Err::<
                Seq<u8>,
                Error,
            >(e),
    {
        let n: usize = prefix.len();
        match self.subseq(self.current_offset(), n) {
            Err(e) => Err(e),
            Ok(s) => {
                proof {
                    self.lemma_cursor_wf();
                    lemma_valid_span(self.cursor(), self.cursor().current_offset() as usize, n);
                }
                let mut i: usize = 0;
                while i < n
                    invariant
                        i <= n,
                        n == prefix@.len(),
                        n == s@.len(),
                        self.cursor().next_bytes(n) == Ok::<Seq<u8>, Error>(s@),
                        forall|j: int| 0 <= j < i ==> prefix@[j] == s@[j],
                    decreases n - i,
                {
                    if prefix[i] != s[i] {
                        proof {
                            assert(prefix@[i as int] != s@[i as int]);
                        }
                        return Ok(false);
                    }
                    i = i + 1;
                }
                proof {
                    assert(prefix@ =~= s@);
                }
                Ok(true)
            },
        }
    }

    /// Fills `buf` with the bytes at the cursor and moves the cursor past
    /// them. A refused request leaves both as they were.
    fn next_bytes(&mut self, buf: &mut [u8]) -> (r: Result<(), Error>)
        requires
            old(self).wf(),
        ensures
            final(self).wf(),
            final(buf)@.len() == old(buf)@.len(),
            r matches Ok(_) ==> old(self).cursor().next_bytes(old(buf)@.len() as usize) == Ok::<
                Seq<u8>,
                Error,
            >(final(buf)@),
            r matches Err(e) ==> old(self).cursor().next_bytes(old(buf)@.len() as usize) == Err::<
                Seq<u8>,
                Error,
            >(e) && final(buf)@ == old(buf)@,
            final(self).cursor() == old(self).cursor().after_read(
                old(buf)@.len() as usize,
                r is Ok,
            ),
    {
        let n: usize = buf.len();
        let current = self.current_offset();
        match self.bytes_at(current, buf) {
            Err(e) => Err(e),
            Ok(()) => {
                proof {
                    self.lemma_cursor_wf();
                    lemma_valid_span(self.cursor(), current, n);
                }
                let _moved = self.advance_to(current + n);
                Ok(())
            },
        }
    }

    /// The byte at the cursor, which then moves past it.
    fn next_u8(&mut self) -> (r: Result<u8, Error>)
        requires
            old(self).wf(),
        ensures
            final(self).wf(),
            r == as_u8(old(self).cursor().next_uint(1, Endidness::Big)),
            final(self).cursor() == old(self).cursor().after_read(1, r is Ok),
    {
        match self.next_uint(1, Endidness::Big) {
            Err(e) => Err(e),
            Ok(v) => Ok(v as u8),
        }
    }

    /// The unsigned number held in the `width` bytes at the cursor, read in
    /// the byte order `endidness`; the cursor then moves past them. A refused
    /// request leaves the cursor where it was.
    fn next_uint(&mut self, width: usize, endidness: Endidness) -> (r: Result<u128, Error>)
        requires
            old(self).wf(),
            width <= 16,
        ensures
            final(self).wf(),
            r matches Ok(v) ==> old(self).cursor().next_uint(width, endidness) == Ok::<nat, Error>(
                v as nat,
            ) && v < pow256(width as nat),
            r matches Err(e) ==> old(self).cursor().next_uint(width, endidness) == Err::<
                nat,
                Error,
            >(e),
            final(self).cursor() == old(self).cursor().after_read(width, r is Ok),
    {
        let current = self.current_offset();
        match self.uint_at(current, width, endidness) {
            Err(e) => Err(e),
            Ok(v) => {
                proof {
                    self.lemma_cursor_wf();
                    lemma_valid_span(self.cursor(), current, width);
                }
                let _moved = self.advance_to(current + width);
                Ok(v)
            },
        }
    }

    /// The native-endian `i8` at the cursor, which stays.
    fn current_i8_ne(&self) -> (r: Result<i8, Error>)
        requires
            self.wf(),
        ensures
            r == as_i8(self.cursor().next_uint(1, Endidness::Big)),
    {
        self.i8_ne_at(self.current_offset())
    }

    /// The big-endian `u16` at the cursor, which stays.
    fn current_u16_be(&self) -> (r: Result<u16, Error>)
        requires
            self.wf(),
        ensures
            r == as_u16(self.cursor().next_uint(2, Endidness::Big)),
    {
        self.u16_be_at(self.current_offset())
    }

    /// The little-endian `u16` at the cursor, which stays.
    fn current_u16_le(&self) -> (r: Result<u16, Error>)
        requires
            self.wf(),
        ensures
            r == as_u16(self.cursor().next_uint(2, Endidness::Little)),
    {
        self.u16_le_at(self.current_offset())
    }

    /// The big-endian `i16` at the cursor, which stays.
    fn current_i16_be(&self) -> (r: Result<i16, Error>)
        requires
            self.wf(),
        ensures
            r == as_i16(self.cursor().next_uint(2, Endidness::Big)),
    {
        self.i16_be_at(self.current_offset())
    }

    /// The little-endian `i16` at the cursor, which stays.
    fn current_i16_le(&self) -> (r: Result<i16, Error>)
        requires
            self.wf(),
        ensures
            r == as_i16(self.cursor().next_uint(2, Endidness::Little)),
    {
        self.i16_le_at(self.current_offset())
    }

    /// The big-endian `u32` at the cursor, which stays.
    fn current_u32_be(&self) -> (r: Result<u32, Error>)
        requires
            self.wf(),
        ensures
            r == as_u32(self.cursor().next_uint(4, Endidness::Big)),
    {
        self.u32_be_at(self.current_offset())
    }

    /// The little-endian `u32` at the cursor, which stays.
    fn current_u32_le(&self) -> (r: Result<u32, Error>)
        requires
            self.wf(),
        ensures
            r == as_u32(self.cursor().next_uint(4, Endidness::Little)),
    {
        self.u32_le_at(self.current_offset())
    }

    /// The big-endian `i32` at the cursor, which stays.
    fn current_i32_be(&self) -> (r: Result<i32, Error>)
        requires
            self.wf(),
        ensures
            r == as_i32(self.cursor().next_uint(4, Endidness::Big)),
    {
        self.i32_be_at(self.current_offset())
    }

    /// The little-endian `i32` at the cursor, which stays.
    fn current_i32_le(&self) -> (r: Result<i32, Error>)
        requires
            self.wf(),
        ensures
            r == as_i32(self.cursor().next_uint(4, Endidness::Little)),
    {
        self.i32_le_at(self.current_offset())
    }

    /// The big-endian `u64` at the cursor, which stays.
    fn current_u64_be(&self) -> (r: Result<u64, Error>)
        requires
            self.wf(),
        ensures
            r == as_u64(self.cursor().next_uint(8, Endidness::Big)),
    {
        self.u64_be_at(self.current_offset())
    }

    /// The little-endian `u64` at the cursor, which stays.
    fn current_u64_le(&self) -> (r: Result<u64, Error>)
        requires
            self.wf(),
        ensures
            r == as_u64(self.cursor().next_uint(8, Endidness::Little)),
    {
        self.u64_le_at(self.current_offset())
    }

    /// The big-endian `i64` at the cursor, which stays.
    fn current_i64_be(&self) -> (r: Result<i64, Error>)
        requires
            self.wf(),
        ensures
            r == as_i64(self.cursor().next_uint(8, Endidness::Big)),
    {
        self.i64_be_at(self.current_offset())
    }

    /// The little-endian `i64` at the cursor, which stays.
    fn current_i64_le(&self) -> (r: Result<i64, Error>)
        requires
            self.wf(),
        ensures
            r == as_i64(self.cursor().next_uint(8, Endidness::Little)),
    {
        self.i64_le_at(self.current_offset())
    }

    /// The big-endian `u128` at the cursor, which stays.
    fn current_u128_be(&self) -> (r: Result<u128, Error>)
        requires
            self.wf(),
        ensures
            r == as_u128(self.cursor().next_uint(16, Endidness::Big)),
    {
        self.u128_be_at(self.current_offset())
    }

    /// The little-endian `u128` at the cursor, which stays.
    fn current_u128_le(&self) -> (r: Result<u128, Error>)
        requires
            self.wf(),
        ensures
            r == as_u128(self.cursor().next_uint(16, Endidness::Little)),
    {
        self.u128_le_at(self.current_offset())
    }

    /// The big-endian `i128` at the cursor, which stays.
    fn current_i128_be(&self) -> (r: Result<i128, Error>)
        requires
            self.wf(),
        ensures
            r == as_i128(self.cursor().next_uint(16, Endidness::Big)),
    {
        self.i128_be_at(self.current_offset())
    }

    /// The little-endian `i128` at the cursor, which stays.
    fn current_i128_le(&self) -> (r: Result<i128, Error>)
        requires
            self.wf(),
        ensures
            r == as_i128(self.cursor().next_uint(16, Endidness::Little)),
    {
        self.i128_le_at(self.current_offset())
    }

    /// The native-endian `i8` at `offset`; the cursor stays.
    fn i8_ne_at(&self, offset: usize) -> (r: Result<i8, Error>)
        requires
            self.wf(),
        ensures
            r == as_i8(self.cursor().uint_at(offset, 1, Endidness::Big)),
    {
        match self.uint_at(offset, 1, Endidness::Big) {
            Err(e) => Err(e),
            Ok(v) => {
                proof {
                    lemma_pow256_values();
                }
                Ok(to_i8(v as u8))
            },
        }
    }

    /// The big-endian `u16` at `offset`; the cursor stays.
    fn u16_be_at(&self, offset: usize) -> (r: Result<u16, Error>)
        requires
            self.wf(),
        ensures
            r == as_u16(self.cursor().uint_at(offset, 2, Endidness::Big)),
    {
        match self.uint_at(offset, 2, Endidness::Big) {
            Err(e) => Err(e),
            Ok(v) => {
                proof {
                    lemma_pow256_values();
                }
                Ok(v as u16)
            },
        }
    }

    /// The little-endian `u16` at `offset`; the cursor stays.
    fn u16_le_at(&self, offset: usize) -> (r: Result<u16, Error>)
        requires
            self.wf(),
        ensures
            r == as_u16(self.cursor().uint_at(offset, 2, Endidness::Little)),
    {
        match self.uint_at(offset, 2, Endidness::Little) {
            Err(e) => Err(e),
            Ok(v) => {
                proof {
                    lemma_pow256_values();
                }
                Ok(v as u16)
            },
        }
    }

    /// The big-endian `i16` at `offset`; the cursor stays.
    fn i16_be_at(&self, offset: usize) -> (r: Result<i16, Error>)
        requires
            self.wf(),
        ensures
            r == as_i16(self.cursor().uint_at(offset, 2, Endidness::Big)),
    {
        match self.uint_at(offset, 2, Endidness::Big) {
            Err(e) => Err(e),
            Ok(v) => {
                proof {
                    lemma_pow256_values();
                }
                Ok(to_i16(v as u16))
            },
        }
    }

    /// The little-endian `i16` at `offset`; the cursor stays.
    fn i16_le_at(&self, offset: usize) -> (r: Result<i16, Error>)
        requires
            self.wf(),
        ensures
            r == as_i16(self.cursor().uint_at(offset, 2, Endidness::Little)),
    {
        match self.uint_at(offset, 2, Endidness::Little) {
            Err(e) => Err(e),
            Ok(v) => {
                proof {
                    lemma_pow256_values();
                }
                Ok(to_i16(v as u16))
            },
        }
    }

    /// The big-endian `u32` at `offset`; the cursor stays.
    fn u32_be_at(&self, offset: usize) -> (r: Result<u32, Error>)
        requires
            self.wf(),
        ensures
            r == as_u32(self.cursor().uint_at(offset, 4, Endidness::Big)),
    {
        match self.uint_at(offset, 4, Endidness::Big) {
            Err(e) => Err(e),
            Ok(v) => {
                proof {
                    lemma_pow256_values();
                }
                Ok(v as u32)
            },
        }
    }

    /// The little-endian `u32` at `offset`; the cursor stays.
    fn u32_le_at(&self, offset: usize) -> (r: Result<u32, Error>)
        requires
            self.wf(),
        ensures
            r == as_u32(self.cursor().uint_at(offset, 4, Endidness::Little)),
    {
        match self.uint_at(offset, 4, Endidness::Little) {
            Err(e) => Err(e),
            Ok(v) => {
                proof {
                    lemma_pow256_values();
                }
                Ok(v as u32)
            },
        }
    }

    /// The big-endian `i32` at `offset`; the cursor stays.
    fn i32_be_at(&self, offset: usize) -> (r: Result<i32, Error>)
        requires
            self.wf(),
        ensures
            r == as_i32(self.cursor().uint_at(offset, 4, Endidness::Big)),
    {
        match self.uint_at(offset, 4, Endidness::Big) {
            Err(e) => Err(e),
            Ok(v) => {
                proof {
                    lemma_pow256_values();
                }
                Ok(to_i32(v as u32))
            },
        }
    }

    /// The little-endian `i32` at `offset`; the cursor stays.
    fn i32_le_at(&self, offset: usize) -> (r: Result<i32, Error>)
        requires
            self.wf(),
        ensures
            r == as_i32(self.cursor().uint_at(offset, 4, Endidness::Little)),
    {
        match self.uint_at(offset, 4, Endidness::Little) {
            Err(e) => Err(e),
            Ok(v) => {
                proof {
                    lemma_pow256_values();
                }
                Ok(to_i32(v as u32))
            },
        }
    }

    /// The big-endian `u64` at `offset`; the cursor stays.
    fn u64_be_at(&self, offset: usize) -> (r: Result<u64, Error>)
        requires
            self.wf(),
        ensures
            r == as_u64(self.cursor().uint_at(offset, 8, Endidness::Big)),
    {
        match self.uint_at(offset, 8, Endidness::Big) {
            Err(e) => Err(e),
            Ok(v) => {
                proof {
                    lemma_pow256_values();
                }
                Ok(v as u64)
            },
        }
    }

    /// The little-endian `u64` at `offset`; the cursor stays.
    fn u64_le_at(&self, offset: usize) -> (r: Result<u64, Error>)
        requires
            self.wf(),
        ensures
            r == as_u64(self.cursor().uint_at(offset, 8, Endidness::Little)),
    {
        match self.uint_at(offset, 8, Endidness::Little) {
            Err(e) => Err(e),
            Ok(v) => {
                proof {
                    lemma_pow256_values();
                }
                Ok(v as u64)
            },
        }
    }

    /// The big-endian `i64` at `offset`; the cursor stays.
    fn i64_be_at(&self, offset: usize) -> (r: Result<i64, Error>)
        requires
            self.wf(),
        ensures
            r == as_i64(self.cursor().uint_at(offset, 8, Endidness::Big)),
    {
        match self.uint_at(offset, 8, Endidness::Big) {
            Err(e) => Err(e),
            Ok(v) => {
                proof {
                    lemma_pow256_values();
                }
                Ok(to_i64(v as u64))
            },
        }
    }

    /// The little-endian `i64` at `offset`; the cursor stays.
    fn i64_le_at(&self, offset: usize) -> (r: Result<i64, Error>)
        requires
            self.wf(),
        ensures
            r == as_i64(self.cursor().uint_at(offset, 8, Endidness::Little)),
    {
        match self.uint_at(offset, 8, Endidness::Little) {
            Err(e) => Err(e),
            Ok(v) => {
                proof {
                    lemma_pow256_values();
                }
                Ok(to_i64(v as u64))
            },
        }
    }

    /// The big-endian `u128` at `offset`; the cursor stays.
    fn u128_be_at(&self, offset: usize) -> (r: Result<u128, Error>)
        requires
            self.wf(),
        ensures
            r == as_u128(self.cursor().uint_at(offset, 16, Endidness::Big)),
    {
        match self.uint_at(offset, 16, Endidness::Big) {
            Err(e) => Err(e),
            Ok(v) => {
                proof {
                    lemma_pow256_values();
                }
                Ok(v)
            },
        }
    }

    /// The little-endian `u128` at `offset`; the cursor stays.
    fn u128_le_at(&self, offset: usize) -> (r: Result<u128, Error>)
        requires
            self.wf(),
        ensures
            r == as_u128(self.cursor().uint_at(offset, 16, Endidness::Little)),
    {
        match self.uint_at(offset, 16, Endidness::Little) {
            Err(e) => Err(e),
            Ok(v) => {
                proof {
                    lemma_pow256_values();
                }
                Ok(v)
            },
        }
    }

    /// The big-endian `i128` at `offset`; the cursor stays.
    fn i128_be_at(&self, offset: usize) -> (r: Result<i128, Error>)
        requires
            self.wf(),
        ensures
            r == as_i128(self.cursor().uint_at(offset, 16, Endidness::Big)),
    {
        match self.uint_at(offset, 16, Endidness::Big) {
            Err(e) => Err(e),
            Ok(v) => {
                proof {
                    lemma_pow256_values();
                }
                Ok(to_i128(v))
            },
        }
    }

    /// The little-endian `i128` at `offset`; the cursor stays.
    fn i128_le_at(&self, offset: usize) -> (r: Result<i128, Error>)
        requires
            self.wf(),
        ensures
            r == as_i128(self.cursor().uint_at(offset, 16, Endidness::Little)),
    {
        match self.uint_at(offset, 16, Endidness::Little) {
            Err(e) => Err(e),
            Ok(v) => {
                proof {
                    lemma_pow256_values();
                }
                Ok(to_i128(v))
            },
        }
    }

    /// The `u16` at `offset`, in the reader's own byte order; the cursor stays.
    /// A reader of unknown byte order refuses.
    fn u16_at(&self, offset: usize) -> (r: Result<u16, Error>)
        requires
            self.wf(),
        ensures
            r == as_u16(self.cursor().uint_at(offset, 2, self.cursor().order)),
    {
        match self.endidness() {
            Endidness::Big => self.u16_be_at(offset),
            Endidness::Little => self.u16_le_at(offset),
            Endidness::Unknown => Err(Error::UnknownEndidness),
        }
    }

    /// The `i16` at `offset`, in the reader's own byte order; the cursor stays.
    /// A reader of unknown byte order refuses.
    fn i16_at(&self, offset: usize) -> (r: Result<i16, Error>)
        requires
            self.wf(),
        ensures
            r == as_i16(self.cursor().uint_at(offset, 2, self.cursor().order)),
    {
        match self.endidness() {
            Endidness::Big => self.i16_be_at(offset),
            Endidness::Little => self.i16_le_at(offset),
            Endidness::Unknown => Err(Error::UnknownEndidness),
        }
    }

    /// The `u32` at `offset`, in the reader's own byte order; the cursor stays.
    /// A reader of unknown byte order refuses.
    fn u32_at(&self, offset: usize) -> (r: Result<u32, Error>)
        requires
            self.wf(),
        ensures
            r == as_u32(self.cursor().uint_at(offset, 4, self.cursor().order)),
    {
        match self.endidness() {
            Endidness::Big => self.u32_be_at(offset),
            Endidness::Little => self.u32_le_at(offset),
            Endidness::Unknown => Err(Error::UnknownEndidness),
        }
    }

    /// The `i32` at `offset`, in the reader's own byte order; the cursor stays.
    /// A reader of unknown byte order refuses.
    fn i32_at(&self, offset: usize) -> (r: Result<i32, Error>)
        requires
            self.wf(),
        ensures
            r == as_i32(self.cursor().uint_at(offset, 4, self.cursor().order)),
    {
        match self.endidness() {
            Endidness::Big => self.i32_be_at(offset),
            Endidness::Little => self.i32_le_at(offset),
            Endidness::Unknown => Err(Error::UnknownEndidness),
        }
    }

    /// The `u64` at `offset`, in the reader's own byte order; the cursor stays.
    /// A reader of unknown byte order refuses.
    fn u64_at(&self, offset: usize) -> (r: Result<u64, Error>)
        requires
            self.wf(),
        ensures
            r == as_u64(self.cursor().uint_at(offset, 8, self.cursor().order)),
    {
        match self.endidness() {
            Endidness::Big => self.u64_be_at(offset),
            Endidness::Little => self.u64_le_at(offset),
            Endidness::Unknown => Err(Error::UnknownEndidness),
        }
    }

    /// The `i64` at `offset`, in the reader's own byte order; the cursor stays.
    /// A reader of unknown byte order refuses.
    fn i64_at(&self, offset: usize) -> (r: Result<i64, Error>)
        requires
            self.wf(),
        ensures
            r == as_i64(self.cursor().uint_at(offset, 8, self.cursor().order)),
    {
        match self.endidness() {
            Endidness::Big => self.i64_be_at(offset),
            Endidness::Little => self.i64_le_at(offset),
            Endidness::Unknown => Err(Error::UnknownEndidness),
        }
    }

    /// The `u128` at `offset`, in the reader's own byte order; the cursor stays.
    /// A reader of unknown byte order refuses.
    fn u128_at(&self, offset: usize) -> (r: Result<u128, Error>)
        requires
            self.wf(),
        ensures
            r == as_u128(self.cursor().uint_at(offset, 16, self.cursor().order)),
    {
        match self.endidness() {
            Endidness::Big => self.u128_be_at(offset),
            Endidness::Little => self.u128_le_at(offset),
            Endidness::Unknown => Err(Error::UnknownEndidness),
        }
    }

    /// The `i128` at `offset`, in the reader's own byte order; the cursor stays.
    /// A reader of unknown byte order refuses.
    fn i128_at(&self, offset: usize) -> (r: Result<i128, Error>)
        requires
            self.wf(),
        ensures
            r == as_i128(self.cursor().uint_at(offset, 16, self.cursor().order)),
    {
        match self.endidness() {
            Endidness::Big => self.i128_be_at(offset),
            Endidness::Little => self.i128_le_at(offset),
            Endidness::Unknown => Err(Error::UnknownEndidness),
        }
    }

    /// The native-endian `i8` at the cursor, which then moves past it.
    fn next_i8_ne(&mut self) -> (r: Result<i8, Error>)
        requires
            old(self).wf(),
        ensures
            final(self).wf(),
            r == as_i8(old(self).cursor().next_uint(1, Endidness::Big)),
            final(self).cursor() == old(self).cursor().after_read(1, r is Ok),
    {
        match self.next_uint(1, Endidness::Big) {
            Err(e) => Err(e),
            Ok(v) => {
                proof {
                    lemma_pow256_values();
                }
                Ok(to_i8(v as u8))
            },
        }
    }

    /// The big-endian `u16` at the cursor, which then moves past it.
    fn next_u16_be(&mut self) -> (r: Result<u16, Error>)
        requires
            old(self).wf(),
        ensures
            final(self).wf(),
            r == as_u16(old(self).cursor().next_uint(2, Endidness::Big)),
            final(self).cursor() == old(self).cursor().after_read(2, r is Ok),
    {
        match self.next_uint(2, Endidness::Big) {
            Err(e) => Err(e),
            Ok(v) => {
                proof {
                    lemma_pow256_values();
                }
                Ok(v as u16)
            },
        }
    }

    /// The little-endian `u16` at the cursor, which then moves past it.
    fn next_u16_le(&mut self) -> (r: Result<u16, Error>)
        requires
            old(self).wf(),
        ensures
            final(self).wf(),
            r == as_u16(old(self).cursor().next_uint(2, Endidness::Little)),
            final(self).cursor() == old(self).cursor().after_read(2, r is Ok),
    {
        match self.next_uint(2, Endidness::Little) {
            Err(e) => Err(e),
            Ok(v) => {
                proof {
                    lemma_pow256_values();
                }
                Ok(v as u16)
            },
        }
    }

    /// The big-endian `i16` at the cursor, which then moves past it.
    fn next_i16_be(&mut self) -> (r: Result<i16, Error>)
        requires
            old(self).wf(),
        ensures
            final(self).wf(),
            r == as_i16(old(self).cursor().next_uint(2, Endidness::Big)),
            final(self).cursor() == old(self).cursor().after_read(2, r is Ok),
    {
        match self.next_uint(2, Endidness::Big) {
            Err(e) => Err(e),
            Ok(v) => {
                proof {
                    lemma_pow256_values();
                }
                Ok(to_i16(v as u16))
            },
        }
    }

    /// The little-endian `i16` at the cursor, which then moves past it.
    fn next_i16_le(&mut self) -> (r: Result<i16, Error>)
        requires
            old(self).wf(),
        ensures
            final(self).wf(),
            r == as_i16(old(self).cursor().next_uint(2, Endidness::Little)),
            final(self).cursor() == old(self).cursor().after_read(2, r is Ok),
    {
        match self.next_uint(2, Endidness::Little) {
            Err(e) => Err(e),
            Ok(v) => {
                proof {
                    lemma_pow256_values();
                }
                Ok(to_i16(v as u16))
            },
        }
    }

    /// The big-endian `u32` at the cursor, which then moves past it.
    fn next_u32_be(&mut self) -> (r: Result<u32, Error>)
        requires
            old(self).wf(),
        ensures
            final(self).wf(),
            r == as_u32(old(self).cursor().next_uint(4, Endidness::Big)),
            final(self).cursor() == old(self).cursor().after_read(4, r is Ok),
    {
        match self.next_uint(4, Endidness::Big) {
            Err(e) => Err(e),
            Ok(v) => {
                proof {
                    lemma_pow256_values();
                }
                Ok(v as u32)
            },
        }
    }

    /// The little-endian `u32` at the cursor, which then moves past it.
    fn next_u32_le(&mut self) -> (r: Result<u32, Error>)
        requires
            old(self).wf(),
        ensures
            final(self).wf(),
            r == as_u32(old(self).cursor().next_uint(4, Endidness::Little)),
            final(self).cursor() == old(self).cursor().after_read(4, r is Ok),
    {
        match self.next_uint(4, Endidness::Little) {
            Err(e) => Err(e),
            Ok(v) => {
                proof {
                    lemma_pow256_values();
                }
                Ok(v as u32)
            },
        }
    }

    /// The big-endian `i32` at the cursor, which then moves past it.
    fn next_i32_be(&mut self) -> (r: Result<i32, Error>)
        requires
            old(self).wf(),
        ensures
            final(self).wf(),
            r == as_i32(old(self).cursor().next_uint(4, Endidness::Big)),
            final(self).cursor() == old(self).cursor().after_read(4, r is Ok),
    {
        match self.next_uint(4, Endidness::Big) {
            Err(e) => Err(e),
            Ok(v) => {
                proof {
                    lemma_pow256_values();
                }
                Ok(to_i32(v as u32))
            },
        }
    }

    /// The little-endian `i32` at the cursor, which then moves past it.
    fn next_i32_le(&mut self) -> (r: Result<i32, Error>)
        requires
            old(self).wf(),
        ensures
            final(self).wf(),
            r == as_i32(old(self).cursor().next_uint(4, Endidness::Little)),
            final(self).cursor() == old(self).cursor().after_read(4, r is Ok),
    {
        match self.next_uint(4, Endidness::Little) {
            Err(e) => Err(e),
            Ok(v) => {
                proof {
                    lemma_pow256_values();
                }
                Ok(to_i32(v as u32))
            },
        }
    }

    /// The big-endian `u64` at the cursor, which then moves past it.
    fn next_u64_be(&mut self) -> (r: Result<u64, Error>)
        requires
            old(self).wf(),
        ensures
            final(self).wf(),
            r == as_u64(old(self).cursor().next_uint(8, Endidness::Big)),
            final(self).cursor() == old(self).cursor().after_read(8, r is Ok),
    {
        match self.next_uint(8, Endidness::Big) {
            Err(e) => Err(e),
            Ok(v) => {
                proof {
                    lemma_pow256_values();
                }
                Ok(v as u64)
            },
        }
    }

    /// The little-endian `u64` at the cursor, which then moves past it.
    fn next_u64_le(&mut self) -> (r: Result<u64, Error>)
        requires
            old(self).wf(),
        ensures
            final(self).wf(),
            r == as_u64(old(self).cursor().next_uint(8, Endidness::Little)),
            final(self).cursor() == old(self).cursor().after_read(8, r is Ok),
    {
        match self.next_uint(8, Endidness::Little) {
            Err(e) => Err(e),
            Ok(v) => {
                proof {
                    lemma_pow256_values();
                }
                Ok(v as u64)
            },
        }
    }

    /// The big-endian `i64` at the cursor, which then moves past it.
    fn next_i64_be(&mut self) -> (r: Result<i64, Error>)
        requires
            old(self).wf(),
        ensures
            final(self).wf(),
            r == as_i64(old(self).cursor().next_uint(8, Endidness::Big)),
            final(self).cursor() == old(self).cursor().after_read(8, r is Ok),
    {
        match self.next_uint(8, Endidness::Big) {
            Err(e) => Err(e),
            Ok(v) => {
                proof {
                    lemma_pow256_values();
                }
                Ok(to_i64(v as u64))
            },
        }
    }

    /// The little-endian `i64` at the cursor, which then moves past it.
    fn next_i64_le(&mut self) -> (r: Result<i64, Error>)
        requires
            old(self).wf(),
        ensures
            final(self).wf(),
            r == as_i64(old(self).cursor().next_uint(8, Endidness::Little)),
            final(self).cursor() == old(self).cursor().after_read(8, r is Ok),
    {
        match self.next_uint(8, Endidness::Little) {
            Err(e) => Err(e),
            Ok(v) => {
                proof {
                    lemma_pow256_values();
                }
                Ok(to_i64(v as u64))
            },
        }
    }

    /// The big-endian `u128` at the cursor, which then moves past it.
    fn next_u128_be(&mut self) -> (r: Result<u128, Error>)
        requires
            old(self).wf(),
        ensures
            final(self).wf(),
            r == as_u128(old(self).cursor().next_uint(16, Endidness::Big)),
            final(self).cursor() == old(self).cursor().after_read(16, r is Ok),
    {
        match self.next_uint(16, Endidness::Big) {
            Err(e) => Err(e),
            Ok(v) => {
                proof {
                    lemma_pow256_values();
                }
                Ok(v)
            },
        }
    }

    /// The little-endian `u128` at the cursor, which then moves past it.
    fn next_u128_le(&mut self) -> (r: Result<u128, Error>)
        requires
            old(self).wf(),
        ensures
            final(self).wf(),
            r == as_u128(old(self).cursor().next_uint(16, Endidness::Little)),
            final(self).cursor() == old(self).cursor().after_read(16, r is Ok),
    {
        match self.next_uint(16, Endidness::Little) {
            Err(e) => Err(e),
            Ok(v) => {
                proof {
                    lemma_pow256_values();
                }
                Ok(v)
            },
        }
    }

    /// The big-endian `i128` at the cursor, which then moves past it.
    fn next_i128_be(&mut self) -> (r: Result<i128, Error>)
        requires
            old(self).wf(),
        ensures
            final(self).wf(),
            r == as_i128(old(self).cursor().next_uint(16, Endidness::Big)),
            final(self).cursor() == old(self).cursor().after_read(16, r is Ok),
    {
        match self.next_uint(16, Endidness::Big) {
            Err(e) => Err(e),
            Ok(v) => {
                proof {
                    lemma_pow256_values();
                }
                Ok(to_i128(v))
            },
        }
    }

    /// The little-endian `i128` at the cursor, which then moves past it.
    fn next_i128_le(&mut self) -> (r: Result<i128, Error>)
        requires
            old(self).wf(),
        ensures
            final(self).wf(),
            r == as_i128(old(self).cursor().next_uint(16, Endidness::Little)),
            final(self).cursor() == old(self).cursor().after_read(16, r is Ok),
    {
        match self.next_uint(16, Endidness::Little) {
            Err(e) => Err(e),
            Ok(v) => {
                proof {
                    lemma_pow256_values();
                }
                Ok(to_i128(v))
            },
        }
    }

    /// The `i8` at the cursor, which then moves past it.
    fn next_i8(&mut self) -> (r: Result<i8, Error>)
        requires
            old(self).wf(),
        ensures
            final(self).wf(),
            r == as_i8(old(self).cursor().next_uint(1, Endidness::Big)),
            final(self).cursor() == old(self).cursor().after_read(1, r is Ok),
    {
        self.next_i8_ne()
    }

    /// The `u16` at the cursor, in the reader's own byte order; the cursor then
    /// moves past it. A reader of unknown byte order refuses.
    fn next_u16(&mut self) -> (r: Result<u16, Error>)
        requires
            old(self).wf(),
        ensures
            final(self).wf(),
            r == as_u16(old(self).cursor().next_uint(2, old(self).cursor().order)),
            final(self).cursor() == old(self).cursor().after_read(2, r is Ok),
    {
        match self.endidness() {
            Endidness::Big => self.next_u16_be(),
            Endidness::Little => self.next_u16_le(),
            Endidness::Unknown => Err(Error::UnknownEndidness),
        }
    }

    /// The `i16` at the cursor, in the reader's own byte order; the cursor then
    /// moves past it. A reader of unknown byte order refuses.
    fn next_i16(&mut self) -> (r: Result<i16, Error>)
        requires
            old(self).wf(),
        ensures
            final(self).wf(),
            r == as_i16(old(self).cursor().next_uint(2, old(self).cursor().order)),
            final(self).cursor() == old(self).cursor().after_read(2, r is Ok),
    {
        match self.endidness() {
            Endidness::Big => self.next_i16_be(),
            Endidness::Little => self.next_i16_le(),
            Endidness::Unknown => Err(Error::UnknownEndidness),
        }
    }

    /// The `u32` at the cursor, in the reader's own byte order; the cursor then
    /// moves past it. A reader of unknown byte order refuses.
    fn next_u32(&mut self) -> (r: Result<u32, Error>)
        requires
            old(self).wf(),
        ensures
            final(self).wf(),
            r == as_u32(old(self).cursor().next_uint(4, old(self).cursor().order)),
            final(self).cursor() == old(self).cursor().after_read(4, r is Ok),
    {
        match self.endidness() {
            Endidness::Big => self.next_u32_be(),
            Endidness::Little => self.next_u32_le(),
            Endidness::Unknown => Err(Error::UnknownEndidness),
        }
    }

    /// The `i32` at the cursor, in the reader's own byte order; the cursor then
    /// moves past it. A reader of unknown byte order refuses.
    fn next_i32(&mut self) -> (r: Result<i32, Error>)
        requires
            old(self).wf(),
        ensures
            final(self).wf(),
            r == as_i32(old(self).cursor().next_uint(4, old(self).cursor().order)),
            final(self).cursor() == old(self).cursor().after_read(4, r is Ok),
    {
        match self.endidness() {
            Endidness::Big => self.next_i32_be(),
            Endidness::Little => self.next_i32_le(),
            Endidness::Unknown => Err(Error::UnknownEndidness),
        }
    }

    /// The `u64` at the cursor, in the reader's own byte order; the cursor then
    /// moves past it. A reader of unknown byte order refuses.
    fn next_u64(&mut self) -> (r: Result<u64, Error>)
        requires
            old(self).wf(),
        ensures
            final(self).wf(),
            r == as_u64(old(self).cursor().next_uint(8, old(self).cursor().order)),
            final(self).cursor() == old(self).cursor().after_read(8, r is Ok),
    {
        match self.endidness() {
            Endidness::Big => self.next_u64_be(),
            Endidness::Little => self.next_u64_le(),
            Endidness::Unknown => Err(Error::UnknownEndidness),
        }
    }

    /// The `i64` at the cursor, in the reader's own byte order; the cursor then
    /// moves past it. A reader of unknown byte order refuses.
    fn next_i64(&mut self) -> (r: Result<i64, Error>)
        requires
            old(self).wf(),
        ensures
            final(self).wf(),
            r == as_i64(old(self).cursor().next_uint(8, old(self).cursor().order)),
            final(self).cursor() == old(self).cursor().after_read(8, r is Ok),
    {
        match self.endidness() {
            Endidness::Big => self.next_i64_be(),
            Endidness::Little => self.next_i64_le(),
            Endidness::Unknown => Err(Error::UnknownEndidness),
        }
    }

    /// The `u128` at the cursor, in the reader's own byte order; the cursor then
    /// moves past it. A reader of unknown byte order refuses.
    fn next_u128(&mut self) -> (r: Result<u128, Error>)
        requires
            old(self).wf(),
        ensures
            final(self).wf(),
            r == as_u128(old(self).cursor().next_uint(16, old(self).cursor().order)),
            final(self).cursor() == old(self).cursor().after_read(16, r is Ok),
    {
        match self.endidness() {
            Endidness::Big => self.next_u128_be(),
            Endidness::Little => self.next_u128_le(),
            Endidness::Unknown => Err(Error::UnknownEndidness),
        }
    }

    /// The `i128` at the cursor, in the reader's own byte order; the cursor then
    /// moves past it. A reader of unknown byte order refuses.
    fn next_i128(&mut self) -> (r: Result<i128, Error>)
        requires
            old(self).wf(),
        ensures
            final(self).wf(),
            r == as_i128(old(self).cursor().next_uint(16, old(self).cursor().order)),
            final(self).cursor() == old(self).cursor().after_read(16, r is Ok),
    {
        match self.endidness() {
            Endidness::Big => self.next_i128_be(),
            Endidness::Little => self.next_i128_le(),
            Endidness::Unknown => Err(Error::UnknownEndidness),
        }
    }

    /// A reader over the bytes from offset `start` up to offset `end`, whose
    /// first byte is at offset `0`.
    fn slice_reader(&self, start: usize, end: usize) -> (r: Result<SliceRefBinReader<'_>, Error>)
        requires
            self.wf(),
        ensures
            r matches Ok(child) ==> self.cursor().range(start, end) matches Ok(s) && child.inv()
                && child@ == self.cursor().child(s, 0),
            r matches Err(e) ==> self.cursor().range(start, end) == Err::<Seq<u8>, Error>(e),
    {
        match self.range(start, end) {
            Err(e) => Err(e),
            Ok(s) => Ok(SliceRefBinReader::new(s, 0, self.endidness())),
        }
    }

    /// A reader over the bytes from offset `start` up to offset `end`, whose
    /// first byte is at `offset`.
    fn slice_reader_with_offset(&self, start: usize, offset: usize, end: usize) -> (r: Result<
        SliceRefBinReader<'_>,
        Error,
    >)
        requires
            self.wf(),
            start <= end ==> offset + (end - start) <= usize::MAX,
        ensures
            r matches Ok(child) ==> self.cursor().range(start, end) matches Ok(s) && child.inv()
                && child@ == self.cursor().child(s, offset as nat),
            r matches Err(e) ==> self.cursor().range(start, end) == Err::<Seq<u8>, Error>(e),
    {
        match self.range(start, end) {
            Err(e) => Err(e),
            Ok(s) => {
                proof {
                    self.lemma_cursor_wf();
                    lemma_valid_span(self.cursor(), start, (end - start) as usize);
                }
                Ok(SliceRefBinReader::new(s, offset, self.endidness()))
            },
        }
    }

    /// A reader over the bytes from offset `start` up to offset `end`, which
    /// keeps this reader's numbering: its first byte is at `start`.
    fn slice_reader_retain_offset(&self, start: usize, end: usize) -> (r: Result<
        SliceRefBinReader<'_>,
        Error,
    >)
        requires
            self.wf(),
        ensures
            r matches Ok(child) ==> self.cursor().range(start, end) matches Ok(s) && child.inv()
                && child@ == self.cursor().child(s, start as nat),
            r matches Err(e) ==> self.cursor().range(start, end) == Err::<Seq<u8>, Error>(e),
    {
        match self.range(start, end) {
            Err(e) => Err(e),
            Ok(s) => {
                proof {
                    self.lemma_cursor_wf();
                    lemma_valid_span(self.cursor(), start, (end - start) as usize);
                }
                Ok(SliceRefBinReader::new(s, start, self.endidness()))
            },
        }
    }
}

/// A reader that owns its bytes, and so can be made from a buffer handed over
/// to it.
pub trait OwnableBinReader<'r>: BinReader<'r> {
    /// Makes a reader over `bytes`, whose first byte is at `initial_offset`.
    /// Where `Ok` comes back, the cursor is at the first byte.
    fn from_bytes_with_offset(bytes: Bytes, initial_offset: usize, endidness: Endidness) -> (r:
        Result<Self, Error>)
        requires
            initial_offset + bytes_content(bytes).len() <= usize::MAX,
        ensures
            r matches Ok(reader) ==> reader.wf() && reader.cursor() == Cursor::fresh(
                bytes_content(bytes),
                initial_offset as nat,
                endidness,
                Self::consumes(),
            ),
            r matches Err(e) ==> e is IoError,
            Self::infallible() ==> r is Ok,
    ;

    /// Makes a reader over `bytes` as `from_bytes_with_offset` does, unless
    /// the offsets of its bytes would not all fit in a `usize`: then the
    /// buffer is handed back.
    fn try_from_bytes_with_offset(bytes: Bytes, initial_offset: usize, endidness: Endidness) -> (r:
        Result<Result<Self, Error>, Bytes>)
        ensures
            r is Ok <==> initial_offset + bytes_content(bytes).len() <= usize::MAX,
            r matches Err(b) ==> b == bytes,
            r matches Ok(Ok(reader)) ==> reader.wf() && reader.cursor() == Cursor::fresh(
                bytes_content(bytes),
                initial_offset as nat,
                endidness,
                Self::consumes(),
            ),
            r matches Ok(Err(e)) ==> e is IoError,
            r matches Ok(made) ==> (Self::infallible() ==> made is Ok),
    {
        if byte_buf::len(&bytes) <= usize::MAX - initial_offset {
            Ok(Self::from_bytes_with_offset(bytes, initial_offset, endidness))
        } else {
            Err(bytes)
        }
    }

    /// Makes a reader over `bytes` whose first byte is at offset `0`.
    fn from_bytes(bytes: Bytes, endidness: Endidness) -> (r: Result<Self, Error>)
        ensures
            r matches Ok(reader) ==> reader.wf() && reader.cursor() == Cursor::fresh(
                bytes_content(bytes),
                0,
                endidness,
                Self::consumes(),
            ),
            r matches Err(e) ==> e is IoError,
            Self::infallible() ==> r is Ok,
    {
        let _held = byte_buf::len(&bytes);
        Self::from_bytes_with_offset(bytes, 0, endidness)
    }
}

} // verus!
