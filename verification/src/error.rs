//! What can go wrong while decoding or encoding a chunk.

use vstd::prelude::*;

verus! {

/// Why a chunk could not be decoded.
#[derive(Clone, Copy, Debug, PartialEq, Eq)]
pub enum DecoderError {
    /// The payload length fits no layout of the chunk kind with this tag.
    ChunkLength([u8; 4]),
    /// A text keyword is this many bytes long, outside 1 to 79.
    KeySize(usize),
    /// A compression flag or compression method byte has no meaning.
    CompressionMethod,
    /// The unit byte of physical dimensions is neither 0 nor 1.
    PhysUnits,
    /// Compressed text could not be decompressed.
    Decompress,
}

/// Why a chunk could not be encoded.
#[derive(Clone, Copy, Debug, PartialEq, Eq)]
pub enum EncoderError {
    /// A text keyword is this many bytes long, outside 1 to 79.
    KeySize(usize),
    /// The payload is longer than a chunk can declare.
    ChunkTooBig,
}

} // verus!
