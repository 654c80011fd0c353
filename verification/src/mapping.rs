//! What this library takes on trust about `memmap2`, the memory maps that the
//! mapped reader keeps its data in.

use vstd::prelude::*;
use memmap2::{Mmap, MmapMut};

verus! {

/// `memmap2::Mmap`: a read-only memory map.
#[verifier::external_type_specification]
#[verifier::external_body]
pub struct ExMmap(memmap2::Mmap);

/// `memmap2::MmapMut`: a writable memory map.
#[verifier::external_type_specification]
#[verifier::external_body]
pub struct ExMmapMut(memmap2::MmapMut);

/// The bytes that a read-only map shows, first to last. A map of a file shows
/// the same bytes for as long as it lives only if nobody changes the file
/// underneath it; whoever maps a file vouches for that.
pub uninterp spec fn mmap_content(m: Mmap) -> Seq<u8>;

/// The bytes that a writable map holds, first to last.
pub uninterp spec fn mmap_mut_content(m: MmapMut) -> Seq<u8>;

/// `MmapMut::map_anon`: asks the operating system for an anonymous map of
/// `length` bytes. Whether it is granted is up to the system; a map that is
/// granted has the length asked for.
#[verifier::external_body]
pub(crate) fn map_anon(length: usize) -> (r: Result<MmapMut, std::io::Error>)
    ensures
        r matches Ok(m) ==> mmap_mut_content(m).len() == length,
{
    MmapMut::map_anon(length)
}

/// `copy_from_slice` on the bytes of a writable map, reached through its
/// `DerefMut`: overwrites the whole map with `data`. It panics where the two
/// lengths differ.
#[verifier::external_body]
pub(crate) fn fill(m: &mut MmapMut, data: &[u8])
    requires
        mmap_mut_content(*old(m)).len() == data@.len(),
    ensures
        mmap_mut_content(*final(m)) == data@,
{
    m.copy_from_slice(data)
}

/// `MmapMut::make_read_only`: asks the operating system to protect the map
/// against writes. Where that is granted, the read-only map shows the bytes
/// that the writable one held.
#[verifier::external_body]
pub(crate) fn make_read_only(m: MmapMut) -> (r: Result<Mmap, std::io::Error>)
    ensures
        r matches Ok(map) ==> mmap_content(map) == mmap_mut_content(m),
{
    m.make_read_only()
}

/// `AsRef<[u8]>::as_ref` on a read-only map: the bytes shown, as a slice.
#[verifier::external_body]
pub(crate) fn as_slice(m: &Mmap) -> (s: &[u8])
    ensures
        s@ == mmap_content(*m),
{
    m.as_ref()
}

} // verus!
