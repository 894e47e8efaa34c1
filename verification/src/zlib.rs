//! The compression of text: zlib streams, made and read by `miniz_oxide`.
//!
//! Verus does not look inside the codec. What it makes of given bytes is
//! named by [`zlib_compressed`] and [`zlib_decompressed`]; nothing here says
//! what those bytes are.

use crate::error::DecoderError;
use miniz_oxide::inflate::DecompressError;
use vstd::prelude::*;

verus! {

/// `miniz_oxide::inflate::DecompressError`, the error of a failed
/// decompression.
#[verifier::external_type_specification]
#[verifier::external_body]
pub struct ExDecompressError(DecompressError);

/// The zlib stream that the codec makes of `input` at a compression level.
pub uninterp spec fn zlib_compressed(input: Seq<u8>, level: u8) -> Seq<u8>;

/// The bytes that the codec reads out of the zlib stream `input`, or `None`
/// where it rejects the stream.
pub uninterp spec fn zlib_decompressed(input: Seq<u8>) -> Option<Seq<u8>>;

/// `miniz_oxide::deflate::compress_to_vec_zlib`: the stream depends on the
/// input and the level alone.
pub assume_specification[ miniz_oxide::deflate::compress_to_vec_zlib ](
    input: &[u8],
    level: u8,
) -> (output: Vec<u8>)
    ensures
        output@ == zlib_compressed(input@, level),
;

/// `miniz_oxide::inflate::decompress_to_vec_zlib`: whether the stream is
/// accepted, and the bytes read out of it, depend on the input alone.
pub assume_specification[ miniz_oxide::inflate::decompress_to_vec_zlib ](input: &[u8]) -> (r:
    Result<Vec<u8>, DecompressError>)
    ensures
        match r {
            Ok(output) => zlib_decompressed(input@) == Some(output@),
            Err(_) => zlib_decompressed(input@) is None,
        },
;

/// What decompressing `input` comes to for a parser.
pub open spec fn inflated(input: Seq<u8>) -> Result<Seq<u8>, DecoderError> {
    match zlib_decompressed(input) {
        Some(output) => Ok(output),
        None => Err(DecoderError::Decompress),
    }
}

/// Appends to `output` the zlib stream of `input`.
pub fn compress(output: &mut Vec<u8>, input: &[u8], level: u8)
    ensures
        final(output)@ == old(output)@ + zlib_compressed(input@, level),
{
    let stream = miniz_oxide::deflate::compress_to_vec_zlib(input, level);
    output.extend_from_slice(stream.as_slice());
}

/// Reads the bytes out of the zlib stream `input`.
pub fn decompress(input: &[u8]) -> (r: Result<Vec<u8>, DecoderError>)
    ensures
        match r {
            Ok(output) => inflated(input@) == Ok::<Seq<u8>, DecoderError>(output@),
            Err(error) => inflated(input@) == Err::<Seq<u8>, DecoderError>(error),
        },
{
    match miniz_oxide::inflate::decompress_to_vec_zlib(input) {
        Ok(output) => Ok(output),
        Err(_) => Err(DecoderError::Decompress),
    }
}

} // verus!
