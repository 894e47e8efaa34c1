//! Suggested background colour (bKGD).

use crate::chunk::{decoded, next_u16, next_u8, Chunk, ChunkView};
use crate::consts;
use crate::encoder::{be_bytes_u16, chunk_written, lemma_be_u16_round_trip, Enc};
use crate::error::{DecoderError, EncoderError};
use crate::reader::be_u16;
use parsenic::Reader;
use vstd::prelude::*;

verus! {

/// The colour to show an image against where nothing better is known.
#[derive(Copy, Clone, Debug, PartialEq, Eq, Structural)]
pub enum Background {
    /// 8-bit palette background index
    Palette(u8),
    /// 1-16 bit gray background value
    Gray(u16),
    /// 1-16 bits for each of Red, Green and Blue
    Rgb(u16, u16, u16),
}

impl Background {
    /// The payload of the chunk: one byte for a palette index, two for a gray
    /// level, six for three colour channels.
    pub open spec fn encoding(self) -> Seq<u8> {
        match self {
            Background::Palette(index) => seq![index],
            Background::Gray(value) => be_bytes_u16(value),
            Background::Rgb(red, green, blue) => be_bytes_u16(red) + be_bytes_u16(green)
                + be_bytes_u16(blue),
        }
    }

    /// What a payload decodes to: its length alone picks the variant, and a
    /// length other than 1, 2 or 6 is an error.
    pub open spec fn decoding(data: Seq<u8>) -> Result<ChunkView, DecoderError> {
        if data.len() == 1 {
            Ok(ChunkView::Background(Background::Palette(data[0])))
        } else if data.len() == 2 {
            Ok(ChunkView::Background(Background::Gray(be_u16(data))))
        } else if data.len() == 6 {
            Ok(
                ChunkView::Background(
                    Background::Rgb(
                        be_u16(data.subrange(0, 2)),
                        be_u16(data.subrange(2, 4)),
                        be_u16(data.subrange(4, 6)),
                    ),
                ),
            )
        } else {
            Err(DecoderError::ChunkLength(consts::BACKGROUND))
        }
    }

    /// Decodes the payload of a background chunk.
    pub fn parse(data: &[u8]) -> (r: Result<Chunk, DecoderError>)
        ensures
            decoded(r) == Self::decoding(data@),
    {
        match data.len() {
            1 => {
                let mut reader = Reader::new(data);
                let index = next_u8(&mut reader, consts::BACKGROUND)?;
                Ok(Chunk::Background(Background::Palette(index)))
            },
            2 => {
                let mut reader = Reader::new(data);
                let value = next_u16(&mut reader, consts::BACKGROUND)?;
                assert(data@.subrange(0, 2) =~= data@);
                Ok(Chunk::Background(Background::Gray(value)))
            },
            6 => {
                let mut reader = Reader::new(data);
                let red = next_u16(&mut reader, consts::BACKGROUND)?;
                let green = next_u16(&mut reader, consts::BACKGROUND)?;
                let blue = next_u16(&mut reader, consts::BACKGROUND)?;
                assert(data@.skip(2).subrange(0, 2) =~= data@.subrange(2, 4));
                assert(data@.skip(2).skip(2).subrange(0, 2) =~= data@.subrange(4, 6));
                Ok(Chunk::Background(Background::Rgb(red, green, blue)))
            },
            _ => Err(DecoderError::ChunkLength(consts::BACKGROUND)),
        }
    }

    /// Writes the chunk into the sink.
    pub fn write(&self, enc: &mut Enc) -> (r: Result<(), EncoderError>)
        ensures
            chunk_written(*old(enc), *final(enc), r, consts::BACKGROUND, self.encoding()),
            r is Ok,
    {
        match *self {
            Background::Palette(index) => {
                enc.prepare(1, consts::BACKGROUND)?;
                enc.u8(index);
                assert(enc.payload@ =~= self.encoding());
            },
            Background::Gray(value) => {
                enc.prepare(2, consts::BACKGROUND)?;
                enc.u16(value);
                assert(enc.payload@ =~= self.encoding());
            },
            Background::Rgb(red, green, blue) => {
                enc.prepare(6, consts::BACKGROUND)?;
                enc.u16(red);
                enc.u16(green);
                enc.u16(blue);
                assert(enc.payload@ =~= self.encoding());
            },
        }
        enc.write_crc();
        Ok(())
    }

    /// A background colour that is written and read back is the same.
    pub proof fn lemma_round_trip(self)
        ensures
            Self::decoding(self.encoding()) == Ok::<ChunkView, DecoderError>(
                ChunkView::Background(self),
            ),
    {
        match self {
            Background::Palette(index) => {},
            Background::Gray(value) => {
                lemma_be_u16_round_trip(value);
            },
            Background::Rgb(red, green, blue) => {
                lemma_be_u16_round_trip(red);
                lemma_be_u16_round_trip(green);
                lemma_be_u16_round_trip(blue);
                let data = self.encoding();
                assert(data.subrange(0, 2) =~= be_bytes_u16(red));
                assert(data.subrange(2, 4) =~= be_bytes_u16(green));
                assert(data.subrange(4, 6) =~= be_bytes_u16(blue));
            },
        }
    }
}

} // verus!
