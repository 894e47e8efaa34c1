//! International text (iTXt).

use crate::chunk::{decoded, key_fits, key_len, next_u8, Chunk, ChunkView};
use crate::consts;
use crate::encoder::{chunk_written, Enc};
use crate::error::{DecoderError, EncoderError};
use crate::parsing::{
    lemma_strz_round_trip, lossy_text, string_from_utf8_lossy, strz, strz_rest, strz_text,
};
use crate::reader::{read_slice, reader_bytes, reader_remaining};
use crate::zlib::{compress, decompress, inflated, zlib_compressed, zlib_decompressed};
use parsenic::Reader;
use vstd::prelude::*;
use vstd::string::StringSliceAdditionalSpecFns;
use vstd::utf8::{encode_utf8, encode_utf8_decode_utf8, encode_utf8_valid_utf8};

verus! {

/// A keyword and a text in any language, stored compressed or plain.
#[derive(Clone, Debug, PartialEq)]
pub struct InternationalText {
    /// A keyword that gives a short description of what the text in `val`
    /// represents, e.g. Title, Author, Description, or anything else.  Minimum
    /// of 1 character, and maximum 79 characters long.
    pub key: String,
    /// Additional string "langtag"
    pub langtag: String,
    /// Additional string "transkey"
    pub transkey: String,
    /// The actual message.  It's discouraged to use a single line length
    /// longer than 79 characters
    pub val: String,
    /// If the text should be compressed
    pub compressed: bool,
}

/// What an international text chunk holds, as mathematical values.
pub struct InternationalTextView {
    /// The keyword.
    pub key: Seq<char>,
    /// The language tag.
    pub langtag: Seq<char>,
    /// The translated keyword.
    pub transkey: Seq<char>,
    /// The text, not compressed.
    pub val: Seq<char>,
    /// Whether the text is stored compressed.
    pub compressed: bool,
}

impl View for InternationalText {
    type V = InternationalTextView;

    open spec fn view(&self) -> InternationalTextView {
        InternationalTextView {
            key: self.key@,
            langtag: self.langtag@,
            transkey: self.transkey@,
            val: self.val@,
            compressed: self.compressed,
        }
    }
}

/// The fields of an international text payload, with the text still in the
/// bytes that store it.
#[derive(Clone, Debug, PartialEq)]
pub struct InternationalFrame {
    /// The keyword.
    pub key: String,
    /// Whether the stored text is a zlib stream.
    pub compressed: bool,
    /// The language tag.
    pub langtag: String,
    /// The translated keyword.
    pub transkey: String,
    /// The stored text.
    pub text: Vec<u8>,
}

/// The fields of an international text payload, as mathematical values.
pub struct InternationalFrameView {
    /// The keyword.
    pub key: Seq<char>,
    /// Whether the stored text is a zlib stream.
    pub compressed: bool,
    /// The language tag.
    pub langtag: Seq<char>,
    /// The translated keyword.
    pub transkey: Seq<char>,
    /// The stored text.
    pub text: Seq<u8>,
}

impl View for InternationalFrame {
    type V = InternationalFrameView;

    open spec fn view(&self) -> InternationalFrameView {
        InternationalFrameView {
            key: self.key@,
            compressed: self.compressed,
            langtag: self.langtag@,
            transkey: self.transkey@,
            text: self.text@,
        }
    }
}

impl InternationalText {
    /// The payload of a chunk with the stored text `text`: the keyword and
    /// its zero, the compression flag, the compression method zero, the
    /// language tag and its zero, the translated keyword and its zero, and
    /// the stored text.
    pub open spec fn layout(fields: InternationalTextView, text: Seq<u8>) -> Seq<u8> {
        encode_utf8(fields.key).push(0u8).push(
            if fields.compressed {
                1u8
            } else {
                0u8
            },
        ).push(0u8) + encode_utf8(fields.langtag).push(0u8) + encode_utf8(fields.transkey).push(
            0u8,
        ) + text
    }

    /// The bytes that store the text of a chunk at a compression level: a
    /// zlib stream of the text where the chunk asks for compression, the
    /// text itself where not.
    pub open spec fn stored_text(fields: InternationalTextView, level: u8) -> Seq<u8> {
        if fields.compressed {
            zlib_compressed(encode_utf8(fields.val), level)
        } else {
            encode_utf8(fields.val)
        }
    }

    /// The payload of the chunk at a compression level.
    pub open spec fn encoding(fields: InternationalTextView, level: u8) -> Seq<u8> {
        Self::layout(fields, Self::stored_text(fields, level))
    }

    /// The fields of a payload. The keyword runs to the first zero byte and
    /// must be 1 to 79 bytes long. The compression flag must be there and be
    /// 0 or 1, and the compression method must be there and be 0. The
    /// language tag and the translated keyword each run to the next zero
    /// byte, and the stored text is all that follows.
    pub open spec fn frame(data: Seq<u8>) -> Result<InternationalFrameView, DecoderError> {
        let key = strz_text(data);
        let rest = strz_rest(data);
        if !key_fits(key) {
            Err(DecoderError::KeySize(key_len(key) as usize))
        } else if rest.len() < 1 {
            Err(DecoderError::ChunkLength(consts::ITEXT))
        } else if rest[0] > 1 {
            Err(DecoderError::CompressionMethod)
        } else if rest.len() < 2 {
            Err(DecoderError::ChunkLength(consts::ITEXT))
        } else if rest[1] != 0 {
            Err(DecoderError::CompressionMethod)
        } else {
            let tags = rest.skip(2);
            Ok(
                InternationalFrameView {
                    key,
                    compressed: rest[0] == 1,
                    langtag: strz_text(tags),
                    transkey: strz_text(strz_rest(tags)),
                    text: strz_rest(strz_rest(tags)),
                },
            )
        }
    }

    /// The text of a frame: what its stored text decompresses to where it is
    /// compressed, the stored text itself where not, taken for UTF-8.
    pub open spec fn frame_text(frame: InternationalFrameView) -> Result<Seq<char>, DecoderError> {
        if frame.compressed {
            match inflated(frame.text) {
                Err(error) => Err(error),
                Ok(bytes) => Ok(lossy_text(bytes)),
            }
        } else {
            Ok(lossy_text(frame.text))
        }
    }

    /// What a payload decodes to: its fields, with the text not compressed
    /// whatever the compression flag says.
    pub open spec fn decoding(data: Seq<u8>) -> Result<ChunkView, DecoderError> {
        match Self::frame(data) {
            Err(error) => Err(error),
            Ok(frame) => match Self::frame_text(frame) {
                Err(error) => Err(error),
                Ok(val) => Ok(
                    ChunkView::InternationalText(
                        InternationalTextView {
                            key: frame.key,
                            langtag: frame.langtag,
                            transkey: frame.transkey,
                            val,
                            compressed: frame.compressed,
                        },
                    ),
                ),
            },
        }
    }

    /// True when a chunk can be read back as it was written: its keyword has
    /// an allowed length, and neither the keyword nor the language tag nor
    /// the translated keyword has the character zero in it.
    pub open spec fn readable(fields: InternationalTextView) -> bool {
        &&& key_fits(fields.key)
        &&& forall|i: int| 0 <= i < fields.key.len() ==> fields.key[i] != '\0'
        &&& forall|i: int| 0 <= i < fields.langtag.len() ==> fields.langtag[i] != '\0'
        &&& forall|i: int| 0 <= i < fields.transkey.len() ==> fields.transkey[i] != '\0'
    }

    /// A payload that is laid out from the fields of a readable chunk and a
    /// stored text is taken apart into the same fields and stored text.
    pub proof fn lemma_frame_of_layout(fields: InternationalTextView, text: Seq<u8>)
        requires
            Self::readable(fields),
        ensures
            Self::frame(Self::layout(fields, text)) == Ok::<InternationalFrameView, DecoderError>(
                InternationalFrameView {
                    key: fields.key,
                    compressed: fields.compressed,
                    langtag: fields.langtag,
                    transkey: fields.transkey,
                    text,
                },
            ),
    {
        let flag = if fields.compressed {
            1u8
        } else {
            0u8
        };
        let after_langtag = encode_utf8(fields.transkey).push(0u8) + text;
        let tags = encode_utf8(fields.langtag).push(0u8) + after_langtag;
        let after_key = seq![flag, 0u8] + tags;
        assert(Self::layout(fields, text) =~= encode_utf8(fields.key).push(0u8) + after_key);
        lemma_strz_round_trip(fields.key, after_key);
        assert(after_key.skip(2) =~= tags);
        lemma_strz_round_trip(fields.langtag, after_langtag);
        lemma_strz_round_trip(fields.transkey, text);
    }

    /// A readable international text that is written and read back is the
    /// same: always where it is stored plain, and where it is stored
    /// compressed if the codec reads out of its own stream what went into
    /// it.
    pub proof fn lemma_round_trip(fields: InternationalTextView, level: u8)
        requires
            Self::readable(fields),
        ensures
            (fields.compressed ==> zlib_decompressed(
                zlib_compressed(encode_utf8(fields.val), level),
            ) == Some(encode_utf8(fields.val))) ==> Self::decoding(Self::encoding(fields, level))
                == Ok::<ChunkView, DecoderError>(ChunkView::InternationalText(fields)),
    {
        Self::lemma_frame_of_layout(fields, Self::stored_text(fields, level));
        encode_utf8_valid_utf8(fields.val);
        encode_utf8_decode_utf8(fields.val);
    }

    /// Takes the payload of an international text chunk apart into its
    /// fields.
    pub fn parse_frame(data: &[u8]) -> (r: Result<InternationalFrame, DecoderError>)
        ensures
            match r {
                Ok(frame) => Self::frame(data@) == Ok::<InternationalFrameView, DecoderError>(
                    frame@,
                ),
                Err(error) => Self::frame(data@) == Err::<InternationalFrameView, DecoderError>(
                    error,
                ),
            },
    {
        let mut reader = Reader::new(data);
        let key = strz(&mut reader);
        let key_len = key.as_str().as_bytes().len();
        if key_len < 1 || key_len > 79 {
            return Err(DecoderError::KeySize(key_len));
        }
        let compressed = match next_u8(&mut reader, consts::ITEXT)? {
            0 => false,
            1 => true,
            _ => return Err(DecoderError::CompressionMethod),
        };
        let method = next_u8(&mut reader, consts::ITEXT)?;
        if method != 0 {
            return Err(DecoderError::CompressionMethod);
        }
        assert(reader_bytes(reader) =~= strz_rest(data@).skip(2));
        let langtag = strz(&mut reader);
        let transkey = strz(&mut reader);
        let left = reader_remaining(&reader);
        let text = match read_slice(&mut reader, left) {
            Ok(text) => text,
            Err(_) => return Err(DecoderError::ChunkLength(consts::ITEXT)),
        };
        assert(text@ =~= strz_rest(strz_rest(strz_rest(data@).skip(2))));
        Ok(InternationalFrame { key, compressed, langtag, transkey, text })
    }

    /// Decodes the payload of an international text chunk.
    pub fn parse(data: &[u8]) -> (r: Result<Chunk, DecoderError>)
        ensures
            decoded(r) == Self::decoding(data@),
    {
        let frame = Self::parse_frame(data)?;
        let val = if frame.compressed {
            let bytes = decompress(frame.text.as_slice())?;
            string_from_utf8_lossy(bytes.as_slice())
        } else {
            string_from_utf8_lossy(frame.text.as_slice())
        };
        Ok(
            Chunk::InternationalText(
                InternationalText {
                    key: frame.key,
                    langtag: frame.langtag,
                    transkey: frame.transkey,
                    val,
                    compressed: frame.compressed,
                },
            ),
        )
    }

    /// Writes the chunk into the sink, with `text` as the stored text. A
    /// keyword that is not 1 to 79 bytes long is refused before anything is
    /// written.
    pub fn write_text(&self, text: &[u8], enc: &mut Enc) -> (r: Result<(), EncoderError>)
        ensures
            !key_fits(self.key@) ==> r == Err::<(), EncoderError>(
                EncoderError::KeySize(key_len(self.key@) as usize),
            ) && *final(enc) == *old(enc),
            key_fits(self.key@) ==> chunk_written(
                *old(enc),
                *final(enc),
                r,
                consts::ITEXT,
                Self::layout(self@, text@),
            ),
    {
        let key = self.key.as_str();
        let langtag = self.langtag.as_str();
        let transkey = self.transkey.as_str();
        let key_len = key.as_bytes().len();
        if key_len < 1 || key_len > 79 {
            return Err(EncoderError::KeySize(key_len));
        }
        let len = text.len().saturating_add(langtag.as_bytes().len()).saturating_add(
            transkey.as_bytes().len(),
        ).saturating_add(key_len + 5);
        enc.prepare(len, consts::ITEXT)?;
        enc.str(key);
        enc.u8(if self.compressed { 1 } else { 0 });
        enc.u8(0);
        enc.str(langtag);
        enc.str(transkey);
        enc.raw(text);
        assert(enc.payload@ =~= Self::layout(self@, text@));
        enc.write_crc();
        Ok(())
    }

    /// Writes the chunk into the sink, with the text compressed at the
    /// sink's level where the chunk asks for it. A keyword that is not 1 to
    /// 79 bytes long is refused before anything is compressed or written.
    pub fn write(&self, enc: &mut Enc) -> (r: Result<(), EncoderError>)
        ensures
            !key_fits(self.key@) ==> r == Err::<(), EncoderError>(
                EncoderError::KeySize(key_len(self.key@) as usize),
            ) && *final(enc) == *old(enc),
            key_fits(self.key@) ==> chunk_written(
                *old(enc),
                *final(enc),
                r,
                consts::ITEXT,
                Self::encoding(self@, old(enc).level),
            ),
    {
        let key_len = self.key.as_str().as_bytes().len();
        if key_len < 1 || key_len > 79 {
            return Err(EncoderError::KeySize(key_len));
        }
        if self.compressed {
            let mut stream: Vec<u8> = Vec::new();
            compress(&mut stream, self.val.as_str().as_bytes(), enc.level());
            assert(stream@ =~= zlib_compressed(encode_utf8(self.val@), enc.level));
            self.write_text(stream.as_slice(), enc)
        } else {
            self.write_text(self.val.as_str().as_bytes(), enc)
        }
    }
}

} // verus!
