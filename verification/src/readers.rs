//! The readers, one for each way of holding the bytes.

pub mod as_ref;
pub mod consuming;
pub mod mmap;
pub mod random_access;
pub mod slice;

pub use as_ref::{ByteStore, SliceAsRefBinReader};
pub use consuming::ConsumingBinReader;
pub use mmap::MmapBinReader;
pub use random_access::RandomAccessBinReader;
pub use slice::{SliceRefBinReader, SliceableBinReader};
