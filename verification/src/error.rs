//! The byte-order tag and the error taxonomy shared by every reader.

use vstd::prelude::*;

verus! {

/// `std::io::Error`, carried through unchanged by [`Error::IoError`]. Nothing is
/// claimed of what such a value holds.
#[verifier::external_type_specification]
#[verifier::external_body]
pub struct ExIoError(std::io::Error);

/// Byte order used to decode multi-byte integers.
///
/// A reader whose order is `Unknown` refuses the reads that pick the order
/// from the reader; the reads that name their order still work.
#[derive(Debug, Clone, Copy, PartialEq, Eq, Structural)]
pub enum Endidness {
    Big,
    Little,
    Unknown,
}

/// Why a read or a seek was refused.
#[derive(Debug)]
pub enum Error {
    /// The offset lies below the lowest valid offset.
    OffsetTooSmall(usize),
    /// The offset lies above the highest valid offset.
    OffsetTooLarge(usize),
    /// `NotEnoughData(requested, remaining)`: the offset is valid, but fewer
    /// bytes than requested follow it.
    NotEnoughData(usize, usize),
    /// An order-dispatching read was made on a reader of unknown byte order.
    UnknownEndidness,
    /// A read of at least one byte was asked of an exhausted reader.
    NoMoreData,
    /// The operating system refused to provide the bytes.
    IoError(std::io::Error),
    /// Any other failure, described in words.
    Other(String),
}

} // verus!
