//! The error taxonomy shared by every fallible operation of the library.

use vstd::prelude::*;

verus! {

/// Why a parse, lookup or text conversion failed.
///
/// Every fallible operation of the library reports one of these variants;
/// none of them panics.
#[derive(Debug, Clone, Copy, PartialEq, Eq, Structural)]
pub enum PngError {
    /// The input does not start with the fixed 8-byte signature.
    BadSignature,
    /// Fewer than the 8 bytes needed for a chunk's length and type fields.
    TruncatedHeader,
    /// A 4-byte type code that is not all ASCII alphabetic, or whose
    /// reserved bit is not valid where full validity is demanded.
    InvalidChunkType,
    /// The input ends before the chunk's declared payload and checksum.
    TruncatedChunk,
    /// The checksum recomputed over type and payload differs from the
    /// stored one.
    CrcMismatch { expected: u32, actual: u32 },
    /// No chunk of the requested type is present.
    ChunkNotFound,
    /// The payload is not valid UTF-8.
    NotText,
}

} // verus!
