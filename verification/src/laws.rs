//! Laws that hold of every reader, stated over the model that the readers'
//! contracts speak of.

use vstd::prelude::*;
use crate::decode::{as_u8, be_value, le_value, pow256, signed_value};
use crate::error::{Endidness, Error};
use crate::model::Cursor;

verus! {

/// The `width` bytes that spell `v` most-significant byte first.
pub open spec fn be_bytes(v: nat, width: nat) -> Seq<u8>
    decreases width,
{
    if width == 0 {
        Seq::empty()
    } else {
        be_bytes(v / 256, (width - 1) as nat).push((v % 256) as u8)
    }
}

/// The `width` bytes that spell `v` least-significant byte first.
pub open spec fn le_bytes(v: nat, width: nat) -> Seq<u8>
    decreases width,
{
    if width == 0 {
        Seq::empty()
    } else {
        seq![(v % 256) as u8] + le_bytes(v / 256, (width - 1) as nat)
    }
}

/// The unsigned `width`-byte number that stands for `i` in two's complement.
pub open spec fn twos_complement(i: int, width: nat) -> nat {
    if i < 0 {
        (i + pow256(width)) as nat
    } else {
        i as nat
    }
}

/// The bytes that `next_u8`, called `n` times in a row, returns, and the
/// reader that the calls leave behind. A refused call ends the run.
pub open spec fn read_bytes(c: Cursor, n: nat) -> (Seq<u8>, Cursor)
    decreases n,
{
    if n == 0 {
        (Seq::empty(), c)
    } else {
        match as_u8(c.next_uint(1, Endidness::Big)) {
            Ok(byte) => {
                let (more, end) = read_bytes(c.after_read(1, true), (n - 1) as nat);
                (seq![byte] + more, end)
            },
            Err(_) => (Seq::empty(), c),
        }
    }
}

/// A reader that has just been made stands at its initial offset, with all
/// of its bytes ahead of it.
pub proof fn lemma_fresh_reader(bytes: Seq<u8>, base: nat, order: Endidness, consuming: bool)
    requires
        base + bytes.len() <= usize::MAX,
    ensures
        Cursor::fresh(bytes, base, order, consuming).wf(),
        Cursor::fresh(bytes, base, order, consuming).current_offset() == base,
        Cursor::fresh(bytes, base, order, consuming).remaining() == Cursor::fresh(
            bytes,
            base,
            order,
            consuming,
        ).size(),
{
}

/// A one-byte number is that byte, in either byte order.
pub proof fn lemma_single_byte_value(byte: u8)
    ensures
        be_value(seq![byte]) == byte,
        le_value(seq![byte]) == byte,
{
    reveal_with_fuel(be_value, 2);
    reveal_with_fuel(le_value, 2);
    assert(seq![byte].drop_last() =~= Seq::<u8>::empty());
    assert(seq![byte].drop_first() =~= Seq::<u8>::empty());
}

/// Reading byte after byte until none remains gives the bytes from the
/// cursor to the end, in order, and leaves the cursor at the end.
pub proof fn lemma_read_to_end(c: Cursor)
    requires
        c.wf(),
    ensures
        read_bytes(c, c.remaining()).0 == c.rest(),
        read_bytes(c, c.remaining()).1 == c.moved_to(c.upper_limit() as int),
        read_bytes(c, c.remaining()).1.remaining() == 0,
    decreases c.remaining(),
{
    if c.remaining() == 0 {
        assert(c.rest() =~= Seq::<u8>::empty());
        assert(c.moved_to(c.upper_limit() as int) == c);
    } else {
        let offset = c.current_offset() as usize;
        let byte = c.bytes[c.pos as int];
        assert(c.validate(offset, 1) is Ok);
        assert(c.span(offset as int, 1) =~= seq![byte]);
        lemma_single_byte_value(byte);
        let next = c.after_read(1, true);
        lemma_read_to_end(next);
        assert(next.remaining() == c.remaining() - 1);
        assert(seq![byte] + next.rest() =~= c.rest());
        assert(next.moved_to(next.upper_limit() as int) == c.moved_to(c.upper_limit() as int));
    }
}

/// Read from its first byte to its end, a reader gives back exactly the
/// bytes that it was made over, and has nothing left.
pub proof fn lemma_read_whole(c: Cursor)
    requires
        c.wf(),
        c.pos == 0,
    ensures
        read_bytes(c, c.size()).0 == c.bytes,
        read_bytes(c, c.size()).1.remaining() == 0,
{
    lemma_read_to_end(c);
    assert(c.rest() =~= c.bytes);
}

/// A refused request moves nothing: whatever was asked for, the reader after
/// a read that failed is the reader before it, cursor and all.
pub proof fn lemma_refusal_keeps_cursor(c: Cursor, length: usize)
    ensures
        c.after_read(length, false) == c,
        c.after_read(length, false).current_offset() == c.current_offset(),
        c.after_read(length, false).remaining() == c.remaining(),
{
}

/// A seek to any offset from the lowest valid one up to the highest valid
/// one is granted, and leaves the cursor at exactly that offset. A consuming
/// reader cannot go back, so for it the offsets start at its cursor.
pub proof fn lemma_advance_to_lands(c: Cursor, offset: usize)
    requires
        c.wf(),
        c.lower_limit() <= offset <= c.upper_limit(),
        c.consuming ==> c.current_offset() <= offset,
    ensures
        c.reach(offset, 0) is Ok,
        c.moved_to(offset as int).wf(),
        c.moved_to(offset as int).current_offset() == offset,
{
}

/// A consuming reader cannot go back: a seek to an offset behind its cursor,
/// and a read of any number of bytes there, is refused. Where the request is
/// valid, the refusal is `OffsetTooSmall` of the offset asked for.
pub proof fn lemma_consuming_refuses_behind(c: Cursor, offset: usize, length: usize)
    requires
        c.wf(),
        c.consuming,
        offset < c.current_offset(),
    ensures
        c.reach(offset, length) is Err,
        c.validate(offset, length) is Ok ==> c.reach(offset, length) == Err::<(), Error>(
            Error::OffsetTooSmall(offset),
        ),
        c.lower_limit() <= offset ==> c.reach(offset, 0) == Err::<(), Error>(
            Error::OffsetTooSmall(offset),
        ),
        c.byte_at(offset) is Err,
        c.bytes_at(offset, length) is Err,
        c.range(offset, (offset + length) as usize) is Err,
        c.uint_at(offset, length, Endidness::Big) is Err,
        c.uint_at(offset, length, Endidness::Little) is Err,
{
}

/// A reader that is not consuming holds all of its bytes, so it grants
/// exactly the requests that are valid.
pub proof fn lemma_keeping_reader_grants_valid(c: Cursor, offset: usize, length: usize)
    requires
        c.wf(),
        !c.consuming,
    ensures
        c.reach(offset, length) == c.validate(offset, length),
{
}

/// A move of the cursor that aims outside the reader is refused by the kind
/// of its aim: too small below the lowest valid offset, too large above the
/// highest. The aim is the plain sum of the cursor's offset and the amount.
pub proof fn lemma_advance_by_outside(c: Cursor, amount: isize)
    requires
        c.wf(),
        c.current_offset() + amount < c.lower_limit() || c.current_offset() + amount
            > c.upper_limit(),
    ensures
        c.shifted(amount) is Err,
        c.upper_limit() < c.current_offset() + amount <= usize::MAX ==> c.shifted(amount)
            == Err::<usize, Error>(
            Error::OffsetTooLarge((c.current_offset() + amount) as usize),
        ),
        c.current_offset() + amount > usize::MAX ==> c.shifted(amount) == Err::<usize, Error>(
            Error::OffsetTooLarge(usize::MAX),
        ),
        0 <= c.current_offset() + amount < c.lower_limit() ==> c.shifted(amount) == Err::<
            usize,
            Error,
        >(Error::OffsetTooSmall((c.current_offset() + amount) as usize)),
        c.current_offset() + amount < 0 ==> c.shifted(amount) == Err::<usize, Error>(
            Error::OffsetTooSmall(0),
        ),
{
}

/// A move of the cursor that aims inside the reader, and for a consuming
/// reader not backwards, lands on exactly its aim.
pub proof fn lemma_advance_by_lands(c: Cursor, amount: isize)
    requires
        c.wf(),
        c.lower_limit() <= c.current_offset() + amount <= c.upper_limit(),
        c.consuming ==> amount >= 0,
    ensures
        c.shifted(amount) == Ok::<usize, Error>((c.current_offset() + amount) as usize),
        c.moved_to(c.current_offset() + amount).current_offset() == c.current_offset() + amount,
{
}

/// The sub-reader over the bytes at the indices from `start` up to `end` of
/// a reader holds `end - start` bytes, and the one that keeps the parent's
/// numbering has its first byte at the parent's initial offset plus `start`.
///
/// The parent must still hold the byte at index `start`, and must have a byte
/// left if any byte is asked for.
pub proof fn lemma_slice_law(c: Cursor, start: nat, end: nat)
    requires
        c.wf(),
        start <= end <= c.size(),
        c.consuming ==> c.pos <= start,
        start < end ==> c.remaining() > 0,
    ensures
        c.range((c.base + start) as usize, (c.base + end) as usize) == Ok::<Seq<u8>, Error>(
            c.bytes.subrange(start as int, end as int),
        ),
        c.child(c.bytes.subrange(start as int, end as int), 0).size() == end - start,
        c.child(c.bytes.subrange(start as int, end as int), c.base + start).base == c.base
            + start,
        c.child(c.bytes.subrange(start as int, end as int), c.base + start).size() == end
            - start,
{
    let s = (c.base + start) as usize;
    let e = (c.base + end) as usize;
    assert(c.reach(s, (e - s) as usize) is Ok);
    assert(c.span(s as int, e - s) =~= c.bytes.subrange(start as int, end as int));
}

/// `pow256` of a successor.
proof fn lemma_pow256_step(width: nat)
    requires
        width > 0,
    ensures
        pow256(width) == 256 * pow256((width - 1) as nat),
{
}

/// Encoding produces as many bytes as asked for.
pub proof fn lemma_encoded_len(v: nat, width: nat)
    ensures
        be_bytes(v, width).len() == width,
        le_bytes(v, width).len() == width,
    decreases width,
{
    if width > 0 {
        lemma_encoded_len(v / 256, (width - 1) as nat);
    }
}

/// Big-endian round trip: a number that fits in `width` bytes, spelled
/// most-significant byte first and decoded the same way, comes back exactly.
pub proof fn lemma_be_round_trip(v: nat, width: nat)
    requires
        v < pow256(width),
    ensures
        be_value(be_bytes(v, width)) == v,
    decreases width,
{
    if width > 0 {
        let head = be_bytes(v / 256, (width - 1) as nat);
        let all = be_bytes(v, width);
        lemma_pow256_step(width);
        lemma_be_round_trip(v / 256, (width - 1) as nat);
        assert(all.drop_last() =~= head);
        assert(all.last() == (v % 256) as u8);
        assert(all.len() > 0);
    }
}

/// Little-endian round trip: a number that fits in `width` bytes, spelled
/// least-significant byte first and decoded the same way, comes back exactly.
pub proof fn lemma_le_round_trip(v: nat, width: nat)
    requires
        v < pow256(width),
    ensures
        le_value(le_bytes(v, width)) == v,
    decreases width,
{
    if width > 0 {
        let tail = le_bytes(v / 256, (width - 1) as nat);
        let all = le_bytes(v, width);
        lemma_pow256_step(width);
        lemma_le_round_trip(v / 256, (width - 1) as nat);
        assert(all.drop_first() =~= tail);
        assert(all[0] == (v % 256) as u8);
        assert(all.len() > 0);
    }
}

/// Two's-complement round trip: every signed number of `width` bytes, the
/// least and the greatest included, comes back from its unsigned stand-in.
pub proof fn lemma_signed_round_trip(i: int, width: nat)
    requires
        width > 0,
        -(pow256(width) as int) <= 2 * i < pow256(width),
    ensures
        twos_complement(i, width) < pow256(width),
        signed_value(twos_complement(i, width), width) == i,
{
}

/// Round trip through a reader: where the `width` bytes at an offset that the
/// reader grants spell `v` in a byte order, the read of a `width`-byte number
/// at that offset in that order gives `v`.
pub proof fn lemma_read_round_trip(c: Cursor, offset: usize, width: usize, v: nat)
    requires
        c.wf(),
        c.reach(offset, width) is Ok,
        v < pow256(width as nat),
    ensures
        c.span(offset as int, width as int) == be_bytes(v, width as nat) ==> c.uint_at(
            offset,
            width,
            Endidness::Big,
        ) == Ok::<nat, Error>(v),
        c.span(offset as int, width as int) == le_bytes(v, width as nat) ==> c.uint_at(
            offset,
            width,
            Endidness::Little,
        ) == Ok::<nat, Error>(v),
{
    lemma_be_round_trip(v, width as nat);
    lemma_le_round_trip(v, width as nat);
}

} // verus!
