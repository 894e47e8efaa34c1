//! Compressed text (zTXt).

use crate::chunk::{decoded, key_fits, key_len, next_u8, Chunk, ChunkView};
use crate::consts;
use crate::encoder::{chunk_written, Enc};
use crate::error::{DecoderError, EncoderError};
use crate::parsing::{
    lemma_strz_round_trip, lossy_text, string_from_utf8_lossy, strz, strz_rest, strz_text,
};
use crate::reader::{read_slice, reader_bytes, reader_remaining};
use crate::zlib::{compress, decompress, inflated, zlib_compressed, zlib_decompressed};
use parsenic::Reader;
use vstd::prelude::*;
use vstd::string::StringSliceAdditionalSpecFns;
use vstd::utf8::{encode_utf8, encode_utf8_decode_utf8, encode_utf8_valid_utf8};

verus! {

/// A keyword and a text that is stored compressed.
#[derive(Clone, Debug, PartialEq)]
pub struct CompressedText {
    /// A keyword that gives a short description of what the text in `val`
    /// represents, e.g. Title, Author, Description, or anything else.  Minimum
    /// of 1 character, and maximum 79 characters long.
    pub key: String,
    /// The actual message.  It's discouraged to use a single line length
    /// longer than 79 characters
    pub val: String,
}

/// What a compressed text chunk holds, as mathematical values.
pub struct CompressedTextView {
    /// The keyword.
    pub key: Seq<char>,
    /// The text, not compressed.
    pub val: Seq<char>,
}

impl View for CompressedText {
    type V = CompressedTextView;

    open spec fn view(&self) -> CompressedTextView {
        CompressedTextView { key: self.key@, val: self.val@ }
    }
}

impl CompressedText {
    /// The payload of a chunk with the keyword `key` and the zlib stream
    /// `stream`: the keyword, the zero that ends it, the compression method
    /// zero, and the stream.
    pub open spec fn layout(key: Seq<char>, stream: Seq<u8>) -> Seq<u8> {
        encode_utf8(key).push(0u8).push(0u8) + stream
    }

    /// The keyword and the zlib stream of a payload. The keyword runs to the
    /// first zero byte and must be 1 to 79 bytes long; the byte after it
    /// must be there and be zero; the stream is all that follows.
    pub open spec fn frame(data: Seq<u8>) -> Result<(Seq<char>, Seq<u8>), DecoderError> {
        let key = strz_text(data);
        let rest = strz_rest(data);
        if !key_fits(key) {
            Err(DecoderError::KeySize(key_len(key) as usize))
        } else if rest.len() == 0 {
            Err(DecoderError::ChunkLength(consts::ZTEXT))
        } else if rest[0] != 0 {
            Err(DecoderError::CompressionMethod)
        } else {
            Ok((key, rest.skip(1)))
        }
    }

    /// What a payload decodes to: its keyword, and the text of what its
    /// stream decompresses to.
    pub open spec fn decoding(data: Seq<u8>) -> Result<ChunkView, DecoderError> {
        match Self::frame(data) {
            Err(error) => Err(error),
            Ok((key, stream)) => match inflated(stream) {
                Err(error) => Err(error),
                Ok(bytes) => Ok(
                    ChunkView::CompressedText(CompressedTextView { key, val: lossy_text(bytes) }),
                ),
            },
        }
    }

    /// The payload of the chunk at a compression level.
    pub open spec fn encoding(text: CompressedTextView, level: u8) -> Seq<u8> {
        Self::layout(text.key, zlib_compressed(encode_utf8(text.val), level))
    }

    /// Writes the chunk into the sink, with `stream` as the compressed text.
    /// A keyword that is not 1 to 79 bytes long is refused before anything
    /// is written.
    pub fn write_stream(&self, stream: &[u8], enc: &mut Enc) -> (r: Result<(), EncoderError>)
        ensures
            !key_fits(self.key@) ==> r == Err::<(), EncoderError>(
                EncoderError::KeySize(key_len(self.key@) as usize),
            ) && *final(enc) == *old(enc),
            key_fits(self.key@) ==> chunk_written(
                *old(enc),
                *final(enc),
                r,
                consts::ZTEXT,
                Self::layout(self.key@, stream@),
            ),
    {
        let key = self.key.as_str();
        let key_len = key.as_bytes().len();
        if key_len < 1 || key_len > 79 {
            return Err(EncoderError::KeySize(key_len));
        }
        enc.prepare(stream.len().saturating_add(key_len + 2), consts::ZTEXT)?;
        enc.str(key);
        enc.u8(0);
        enc.raw(stream);
        assert(enc.payload@ =~= Self::layout(self.key@, stream@));
        enc.write_crc();
        Ok(())
    }

    /// Writes the chunk into the sink, with the text compressed at the
    /// sink's level. A keyword that is not 1 to 79 bytes long is refused
    /// before anything is compressed or written.
    pub fn write(&self, enc: &mut Enc) -> (r: Result<(), EncoderError>)
        ensures
            !key_fits(self.key@) ==> r == Err::<(), EncoderError>(
                EncoderError::KeySize(key_len(self.key@) as usize),
            ) && *final(enc) == *old(enc),
            key_fits(self.key@) ==> chunk_written(
                *old(enc),
                *final(enc),
                r,
                consts::ZTEXT,
                Self::encoding(self@, old(enc).level),
            ),
    {
        let key_len = self.key.as_str().as_bytes().len();
        if key_len < 1 || key_len > 79 {
            return Err(EncoderError::KeySize(key_len));
        }
        let mut stream: Vec<u8> = Vec::new();
        compress(&mut stream, self.val.as_str().as_bytes(), enc.level());
        assert(stream@ =~= zlib_compressed(encode_utf8(self.val@), enc.level));
        self.write_stream(stream.as_slice(), enc)
    }

    /// Takes the payload of a compressed text chunk apart into its keyword
    /// and its zlib stream.
    pub fn parse_frame(data: &[u8]) -> (r: Result<(String, Vec<u8>), DecoderError>)
        ensures
            match r {
                Ok((key, stream)) => Self::frame(data@) == Ok::<
                    (Seq<char>, Seq<u8>),
                    DecoderError,
                >((key@, stream@)),
                Err(error) => Self::frame(data@) == Err::<(Seq<char>, Seq<u8>), DecoderError>(
                    error,
                ),
            },
    {
        let mut reader = Reader::new(data);
        let key = strz(&mut reader);
        let key_len = key.as_str().as_bytes().len();
        if key_len < 1 || key_len > 79 {
            return Err(DecoderError::KeySize(key_len));
        }
        let method = next_u8(&mut reader, consts::ZTEXT)?;
        if method != 0 {
            return Err(DecoderError::CompressionMethod);
        }
        let left = reader_remaining(&reader);
        let stream = match read_slice(&mut reader, left) {
            Ok(stream) => stream,
            Err(_) => return Err(DecoderError::ChunkLength(consts::ZTEXT)),
        };
        assert(stream@ =~= strz_rest(data@).skip(1));
        Ok((key, stream))
    }

    /// A payload that is laid out from a keyword and a stream is taken apart
    /// into the same keyword and stream, where the keyword has an allowed
    /// length and no character zero in it.
    pub proof fn lemma_frame_of_layout(key: Seq<char>, stream: Seq<u8>)
        requires
            key_fits(key),
            forall|i: int| 0 <= i < key.len() ==> key[i] != '\0',
        ensures
            Self::frame(Self::layout(key, stream)) == Ok::<(Seq<char>, Seq<u8>), DecoderError>(
                (key, stream),
            ),
    {
        let tail = seq![0u8] + stream;
        assert(Self::layout(key, stream) =~= encode_utf8(key).push(0u8) + tail);
        lemma_strz_round_trip(key, tail);
        assert(tail.skip(1) =~= stream);
    }

    /// A compressed text that is written and read back is the same, where
    /// its keyword has an allowed length and no character zero in it, and
    /// where the codec reads out of its own stream what went into it.
    pub proof fn lemma_round_trip(text: CompressedTextView, level: u8)
        requires
            key_fits(text.key),
            forall|i: int| 0 <= i < text.key.len() ==> text.key[i] != '\0',
        ensures
            zlib_decompressed(zlib_compressed(encode_utf8(text.val), level)) == Some(
                encode_utf8(text.val),
            ) ==> Self::decoding(Self::encoding(text, level)) == Ok::<ChunkView, DecoderError>(
                ChunkView::CompressedText(text),
            ),
    {
        Self::lemma_frame_of_layout(text.key, zlib_compressed(encode_utf8(text.val), level));
        encode_utf8_valid_utf8(text.val);
        encode_utf8_decode_utf8(text.val);
    }

    /// Decodes the payload of a compressed text chunk.
    pub fn parse(data: &[u8]) -> (r: Result<Chunk, DecoderError>)
        ensures
            decoded(r) == Self::decoding(data@),
    {
        let (key, stream) = Self::parse_frame(data)?;
        let bytes = decompress(stream.as_slice())?;
        let val = string_from_utf8_lossy(bytes.as_slice());
        Ok(Chunk::CompressedText(CompressedText { key, val }))
    }
}

} // verus!
