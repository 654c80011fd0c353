//! A uniform binary cursor: offset-based, endianness-aware reads of
//! fixed-width integers and byte ranges, independent of where the bytes live.

pub mod byte_buf;
pub mod decode;
pub mod error;
pub mod iter;
pub mod laws;
pub mod mapping;
pub mod model;
pub mod num_getters;
pub mod reader;
pub mod readers;
pub mod util;

pub use error::{Endidness, Error};
pub use iter::BorrowedBinReaderIter;
pub use reader::{BinReader, OwnableBinReader};
pub use readers::{
    ByteStore, ConsumingBinReader, MmapBinReader, RandomAccessBinReader, SliceAsRefBinReader,
    SliceRefBinReader, SliceableBinReader,
};
