//! What this library takes on trust about `bytes::Bytes`, the reference-counted
//! buffer that the owning readers keep their data in.

use vstd::prelude::*;
use bytes::{Buf, BufMut, Bytes, BytesMut};

verus! {

/// `bytes::Bytes`: a cheaply cloneable window onto shared, immutable bytes.
#[verifier::external_type_specification]
#[verifier::external_body]
pub struct ExBytes(bytes::Bytes);

/// The bytes that a `Bytes` holds, first to last.
pub uninterp spec fn bytes_content(b: Bytes) -> Seq<u8>;

/// `Bytes::copy_from_slice`: a buffer that holds a copy of `data`.
#[verifier::external_body]
pub(crate) fn copy_from_slice(data: &[u8]) -> (b: Bytes)
    ensures
        bytes_content(b) == data@,
{
    Bytes::copy_from_slice(data)
}

/// `Bytes::len`: the number of bytes held.
#[verifier::external_body]
pub(crate) fn len(b: &Bytes) -> (n: usize)
    ensures
        n == bytes_content(*b).len(),
{
    b.len()
}

/// `Bytes::is_empty`: whether no byte is held.
#[verifier::external_body]
pub(crate) fn is_empty(b: &Bytes) -> (e: bool)
    ensures
        e == (bytes_content(*b).len() == 0),
{
    b.is_empty()
}

/// `Buf::remaining` on a `Bytes`: the number of bytes not yet taken from the
/// front, which is all that it holds.
#[verifier::external_body]
pub(crate) fn remaining(b: &Bytes) -> (n: usize)
    ensures
        n == bytes_content(*b).len(),
{
    b.remaining()
}

/// `AsRef<[u8]>::as_ref` on a `Bytes`: the bytes held, as a slice.
#[verifier::external_body]
pub(crate) fn as_slice(b: &Bytes) -> (s: &[u8])
    ensures
        s@ == bytes_content(*b),
{
    b.as_ref()
}

/// `Buf::advance` on a `Bytes`: drops the first `cnt` bytes. It panics where
/// fewer are held.
#[verifier::external_body]
pub(crate) fn advance(b: &mut Bytes, cnt: usize)
    requires
        cnt <= bytes_content(*old(b)).len(),
    ensures
        bytes_content(*final(b)) == bytes_content(*old(b)).skip(cnt as int),
{
    b.advance(cnt)
}

/// `Buf::get_u8` on a `Bytes`: takes the first byte off the front. It panics
/// where none is held.
#[verifier::external_body]
pub(crate) fn get_u8(b: &mut Bytes) -> (byte: u8)
    requires
        bytes_content(*old(b)).len() > 0,
    ensures
        byte == bytes_content(*old(b))[0],
        bytes_content(*final(b)) == bytes_content(*old(b)).skip(1),
{
    b.get_u8()
}

/// `Bytes::split_to`: detaches the first `at` bytes and returns them; the
/// rest stays. It panics where fewer are held.
#[verifier::external_body]
pub(crate) fn split_to(b: &mut Bytes, at: usize) -> (head: Bytes)
    requires
        at <= bytes_content(*old(b)).len(),
    ensures
        bytes_content(head) == bytes_content(*old(b)).take(at as int),
        bytes_content(*final(b)) == bytes_content(*old(b)).skip(at as int),
{
    b.split_to(at)
}

/// `bytes::BytesMut`: a growable buffer that can be frozen into a `Bytes`.
#[verifier::external_type_specification]
#[verifier::external_body]
pub struct ExBytesMut(bytes::BytesMut);

/// The bytes that a `BytesMut` holds, first to last.
pub uninterp spec fn bytes_mut_content(b: BytesMut) -> Seq<u8>;

/// `BytesMut::new`: an empty buffer that has allocated nothing.
#[verifier::external_body]
pub(crate) fn empty_buffer() -> (b: BytesMut)
    ensures
        bytes_mut_content(b) == Seq::<u8>::empty(),
{
    BytesMut::new()
}

/// `BytesMut::with_capacity`: an empty buffer with room for `capacity`
/// bytes. It panics where the capacity exceeds `isize::MAX`.
#[verifier::external_body]
pub(crate) fn buffer_with_capacity(capacity: usize) -> (b: BytesMut)
    requires
        capacity <= isize::MAX,
    ensures
        bytes_mut_content(b) == Seq::<u8>::empty(),
{
    BytesMut::with_capacity(capacity)
}

/// `BufMut::put_slice` on a `BytesMut`: appends `src`, growing the buffer as
/// needed. It panics where the new length would exceed `isize::MAX`.
#[verifier::external_body]
pub(crate) fn put_slice(b: &mut BytesMut, src: &[u8])
    requires
        bytes_mut_content(*old(b)).len() + src@.len() <= isize::MAX,
    ensures
        bytes_mut_content(*final(b)) == bytes_mut_content(*old(b)) + src@,
{
    b.put_slice(src)
}

/// `Bytes::from` a `BytesMut`: the same bytes, from now on immutable.
#[verifier::external_body]
pub(crate) fn freeze(b: BytesMut) -> (frozen: Bytes)
    ensures
        bytes_content(frozen) == bytes_mut_content(b),
{
    Bytes::from(b)
}

} // verus!
