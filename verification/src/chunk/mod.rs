//! The chunk kinds and the value that holds any one of them.

pub mod bkgd;
pub mod itxt;
pub mod phys;
pub mod plte;
pub mod time;
pub mod trns;
pub mod ztxt;

use crate::consts;
use crate::encoder::{chunk_written, Enc};
use crate::error::{DecoderError, EncoderError};
use crate::reader::{be_u16, be_u32, read_u16, read_u32, read_u8, reader_bytes};
use parsenic::Reader;
use vstd::prelude::*;
use vstd::utf8::encode_utf8;

pub use self::bkgd::Background;
pub use self::itxt::{
    InternationalFrame, InternationalFrameView, InternationalText, InternationalTextView,
};
pub use self::phys::Physical;
pub use self::plte::{Palette, Rgb8};
pub use self::time::Time;
pub use self::trns::{Transparency, TransparencyView};
pub use self::ztxt::{CompressedText, CompressedTextView};

verus! {

/// A decoded chunk of any kind.
#[derive(Clone, Debug, PartialEq)]
pub enum Chunk {
    /// Suggested background colour.
    Background(Background),
    /// Physical pixel dimensions.
    Physical(Physical),
    /// Colour palette.
    Palette(Palette),
    /// Time of last modification.
    Time(Time),
    /// Transparency.
    Transparency(Transparency),
    /// Compressed text.
    CompressedText(CompressedText),
    /// International text.
    InternationalText(InternationalText),
}

/// What a chunk holds, as mathematical values.
pub enum ChunkView {
    /// Suggested background colour.
    Background(Background),
    /// Physical pixel dimensions.
    Physical(Physical),
    /// Colour palette.
    Palette(Seq<Rgb8>),
    /// Time of last modification.
    Time(Time),
    /// Transparency.
    Transparency(TransparencyView),
    /// Compressed text.
    CompressedText(CompressedTextView),
    /// International text.
    InternationalText(InternationalTextView),
}

impl View for Chunk {
    type V = ChunkView;

    open spec fn view(&self) -> ChunkView {
        match *self {
            Chunk::Background(background) => ChunkView::Background(background),
            Chunk::Physical(physical) => ChunkView::Physical(physical),
            Chunk::Palette(palette) => ChunkView::Palette(palette@),
            Chunk::Time(time) => ChunkView::Time(time),
            Chunk::Transparency(transparency) => ChunkView::Transparency(transparency@),
            Chunk::CompressedText(text) => ChunkView::CompressedText(text@),
            Chunk::InternationalText(text) => ChunkView::InternationalText(text@),
        }
    }
}

impl ChunkView {
    /// The type tag of the chunk's kind.
    pub open spec fn tag(self) -> [u8; 4] {
        match self {
            ChunkView::Background(_) => consts::BACKGROUND,
            ChunkView::Physical(_) => consts::PHYSICAL,
            ChunkView::Palette(_) => consts::PALETTE,
            ChunkView::Time(_) => consts::TIME,
            ChunkView::Transparency(_) => consts::TRANSPARENCY,
            ChunkView::CompressedText(_) => consts::ZTEXT,
            ChunkView::InternationalText(_) => consts::ITEXT,
        }
    }

    /// The keyword of the chunk, where its kind has one.
    pub open spec fn key(self) -> Option<Seq<char>> {
        match self {
            ChunkView::CompressedText(text) => Some(text.key),
            ChunkView::InternationalText(text) => Some(text.key),
            _ => None,
        }
    }

    /// The payload of the chunk, with text compressed at `level`.
    pub open spec fn encoding(self, level: u8) -> Seq<u8> {
        match self {
            ChunkView::Background(background) => background.encoding(),
            ChunkView::Physical(physical) => physical.encoding(),
            ChunkView::Palette(colors) => Palette::encoding(colors),
            ChunkView::Time(time) => time.encoding(),
            ChunkView::Transparency(transparency) => transparency.encoding(),
            ChunkView::CompressedText(text) => CompressedText::encoding(text, level),
            ChunkView::InternationalText(text) => InternationalText::encoding(text, level),
        }
    }
}

impl Chunk {
    /// Writes the chunk into the sink, as its kind lays it out. A text chunk
    /// whose keyword is not 1 to 79 bytes long is refused before anything is
    /// written.
    pub fn write(&self, enc: &mut Enc) -> (r: Result<(), EncoderError>)
        ensures
            match self@.key() {
                Some(key) if !key_fits(key) => r == Err::<(), EncoderError>(
                    EncoderError::KeySize(key_len(key) as usize),
                ) && *final(enc) == *old(enc),
                _ => chunk_written(
                    *old(enc),
                    *final(enc),
                    r,
                    self@.tag(),
                    self@.encoding(old(enc).level),
                ),
            },
    {
        match self {
            Chunk::Background(background) => background.write(enc),
            Chunk::Physical(physical) => physical.write(enc),
            Chunk::Palette(palette) => palette.write(enc),
            Chunk::Time(time) => time.write(enc),
            Chunk::Transparency(transparency) => transparency.write(enc),
            Chunk::CompressedText(text) => text.write(enc),
            Chunk::InternationalText(text) => text.write(enc),
        }
    }
}

/// The outcome of a parser, with the chunk taken by its view.
pub open spec fn decoded(r: Result<Chunk, DecoderError>) -> Result<ChunkView, DecoderError> {
    match r {
        Ok(chunk) => Ok(chunk@),
        Err(error) => Err(error),
    }
}

/// The length in bytes of a keyword.
pub open spec fn key_len(key: Seq<char>) -> nat {
    encode_utf8(key).len()
}

/// True when a keyword has a length that a text chunk allows: 1 to 79 bytes.
pub open spec fn key_fits(key: Seq<char>) -> bool {
    1 <= key_len(key) <= 79
}

/// Reads one byte of a chunk of the kind `tag`; a payload that ends before
/// it has the wrong length for the kind.
pub(crate) fn next_u8(reader: &mut Reader<'_>, tag: [u8; 4]) -> (r: Result<u8, DecoderError>)
    ensures
        reader_bytes(*old(reader)).len() >= 1 ==> r == Ok::<u8, DecoderError>(
            reader_bytes(*old(reader))[0],
        ) && reader_bytes(*final(reader)) == reader_bytes(*old(reader)).skip(1),
        reader_bytes(*old(reader)).len() < 1 ==> r == Err::<u8, DecoderError>(
            DecoderError::ChunkLength(tag),
        ) && reader_bytes(*final(reader)) == reader_bytes(*old(reader)),
{
    match read_u8(reader) {
        Ok(byte) => Ok(byte),
        Err(_) => Err(DecoderError::ChunkLength(tag)),
    }
}

/// Reads a big-endian 16-bit integer of a chunk of the kind `tag`; a payload
/// that ends before it has the wrong length for the kind.
pub(crate) fn next_u16(reader: &mut Reader<'_>, tag: [u8; 4]) -> (r: Result<u16, DecoderError>)
    ensures
        reader_bytes(*old(reader)).len() >= 2 ==> r == Ok::<u16, DecoderError>(
            be_u16(reader_bytes(*old(reader)).subrange(0, 2)),
        ) && reader_bytes(*final(reader)) == reader_bytes(*old(reader)).skip(2),
        reader_bytes(*old(reader)).len() < 2 ==> r == Err::<u16, DecoderError>(
            DecoderError::ChunkLength(tag),
        ) && reader_bytes(*final(reader)) == reader_bytes(*old(reader)),
{
    match read_u16(reader) {
        Ok(value) => Ok(value),
        Err(_) => Err(DecoderError::ChunkLength(tag)),
    }
}

/// Reads a big-endian 32-bit integer of a chunk of the kind `tag`; a payload
/// that ends before it has the wrong length for the kind.
pub(crate) fn next_u32(reader: &mut Reader<'_>, tag: [u8; 4]) -> (r: Result<u32, DecoderError>)
    ensures
        reader_bytes(*old(reader)).len() >= 4 ==> r == Ok::<u32, DecoderError>(
            be_u32(reader_bytes(*old(reader)).subrange(0, 4)),
        ) && reader_bytes(*final(reader)) == reader_bytes(*old(reader)).skip(4),
        reader_bytes(*old(reader)).len() < 4 ==> r == Err::<u32, DecoderError>(
            DecoderError::ChunkLength(tag),
        ) && reader_bytes(*final(reader)) == reader_bytes(*old(reader)),
{
    match read_u32(reader) {
        Ok(value) => Ok(value),
        Err(_) => Err(DecoderError::ChunkLength(tag)),
    }
}

} // verus!
