//! Error values reported by the log container parser.
use vstd::prelude::*;

verus! {

/// The reason an index block payload was rejected, in the order the checks run:
/// a payload shorter than the minimal block, then a length that does not leave a
/// whole number of eight-byte offsets, then a missing trailing marker.
#[derive(Clone, Copy, Debug, PartialEq, Eq, Structural)]
pub enum IndexFault {
    NotEnoughBytes,
    Misaligned,
    MarkerNotFound,
}

/// Everything that can go wrong while opening a log file or decoding its frames.
///
/// A clean end of file (no bytes left exactly at a frame boundary) is not an
/// error and is never reported through this type.
#[derive(Clone, Copy, Debug, PartialEq, Eq, Structural)]
pub enum LogError {
    /// The file does not begin with the fixed preamble, or is too short to hold it.
    BadPreamble,
    /// The preamble matched but the format version is not the supported one.
    UnsupportedVersion(i32),
    /// The input ended in the middle of a frame header or payload.
    TruncatedInput,
    /// A frame header carried a type tag outside the known set.
    UnknownMessageType(i32),
    /// An index frame's payload is not a well-formed index block.
    MalformedIndex(IndexFault),
}

} // verus!
