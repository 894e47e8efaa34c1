//! Colour palette (PLTE).

use crate::chunk::{decoded, next_u8, Chunk, ChunkView};
use crate::consts;
use crate::decoder::ParseContext;
use crate::encoder::{chunk_written, Enc, MAX_CHUNK_LEN};
use crate::error::{DecoderError, EncoderError};
use crate::reader::reader_bytes;
use parsenic::Reader;
use vstd::prelude::*;

verus! {

/// One palette entry: an sRGB colour with eight bits for each channel.
#[derive(Clone, Copy, Debug, PartialEq, Eq, Structural)]
pub struct Rgb8 {
    /// The red channel.
    pub red: u8,
    /// The green channel.
    pub green: u8,
    /// The blue channel.
    pub blue: u8,
}

/// The colours that the pixels of an indexed image refer to.
#[derive(Clone, Debug, PartialEq)]
#[must_use]
pub struct Palette {
    /// List of colors in the palette.
    pub palette: Vec<Rgb8>,
}

impl View for Palette {
    type V = Seq<Rgb8>;

    open spec fn view(&self) -> Seq<Rgb8> {
        self.palette@
    }
}

impl Palette {
    /// The payload of the chunk: three bytes for each colour, in order.
    pub open spec fn encoding(colors: Seq<Rgb8>) -> Seq<u8> {
        Seq::new(
            3 * colors.len(),
            |i: int|
                if i % 3 == 0 {
                    colors[i / 3].red
                } else if i % 3 == 1 {
                    colors[i / 3].green
                } else {
                    colors[i / 3].blue
                },
        )
    }

    /// The colours of a payload: as many as it has whole groups of three
    /// bytes. Up to two bytes after the last whole group are left out.
    pub open spec fn colors(data: Seq<u8>) -> Seq<Rgb8> {
        Seq::new(
            (data.len() / 3) as nat,
            |i: int| Rgb8 { red: data[3 * i], green: data[3 * i + 1], blue: data[3 * i + 2] },
        )
    }

    /// What a payload decodes to: every payload is a palette.
    pub open spec fn decoding(data: Seq<u8>) -> Result<ChunkView, DecoderError> {
        Ok(ChunkView::Palette(Self::colors(data)))
    }

    /// Decodes the payload of a palette chunk, and records in the session
    /// that a palette has been seen.
    pub fn parse(data: &[u8], ctx: &mut ParseContext) -> (r: Result<Chunk, DecoderError>)
        ensures
            decoded(r) == Self::decoding(data@),
            final(ctx).palette,
    {
        ctx.set_palette();
        let mut reader = Reader::new(data);
        let count = data.len() / 3;
        let mut palette: Vec<Rgb8> = Vec::new();
        let mut i: usize = 0;
        while i < count
            invariant
                count == data@.len() / 3,
                0 <= i <= count,
                reader_bytes(reader) == data@.skip(3 * i),
                palette@ == Self::colors(data@).subrange(0, i as int),
            decreases count - i,
        {
            let red = next_u8(&mut reader, consts::PALETTE)?;
            let green = next_u8(&mut reader, consts::PALETTE)?;
            let blue = next_u8(&mut reader, consts::PALETTE)?;
            palette.push(Rgb8 { red, green, blue });
            proof {
                assert(data@.skip(3 * i).skip(1).skip(1).skip(1) =~= data@.skip(3 * (i + 1)));
                assert(palette@ =~= Self::colors(data@).subrange(0, i + 1));
            }
            i += 1;
        }
        assert(palette@ =~= Self::colors(data@));
        Ok(Chunk::Palette(Palette { palette }))
    }

    /// Writes the chunk into the sink.
    pub fn write(&self, enc: &mut Enc) -> (r: Result<(), EncoderError>)
        ensures
            chunk_written(*old(enc), *final(enc), r, consts::PALETTE, Self::encoding(self@)),
    {
        let count = self.palette.len();
        if count > MAX_CHUNK_LEN / 3 {
            return Err(EncoderError::ChunkTooBig);
        }
        enc.prepare(count * 3, consts::PALETTE)?;
        let mut i: usize = 0;
        while i < count
            invariant
                count == self.palette@.len(),
                count * 3 <= MAX_CHUNK_LEN,
                0 <= i <= count,
                enc.payload@ == Self::encoding(self@).subrange(0, 3 * i),
                enc.level == old(enc).level,
                enc.tag == consts::PALETTE,
                enc.declared == count * 3,
                !enc.sealed,
            decreases count - i,
        {
            let color = self.palette[i];
            enc.u8(color.red);
            enc.u8(color.green);
            enc.u8(color.blue);
            assert(enc.payload@ =~= Self::encoding(self@).subrange(0, 3 * (i + 1)));
            i += 1;
        }
        assert(enc.payload@ =~= Self::encoding(self@));
        enc.write_crc();
        Ok(())
    }

    /// A palette that is written and read back is the same.
    pub proof fn lemma_round_trip(colors: Seq<Rgb8>)
        ensures
            Self::decoding(Self::encoding(colors)) == Ok::<ChunkView, DecoderError>(
                ChunkView::Palette(colors),
            ),
    {
        assert(Self::colors(Self::encoding(colors)) =~= colors);
    }

    /// The bytes after the last whole group of three change nothing: a
    /// payload decodes as its longest leading part of whole groups does.
    pub proof fn lemma_truncation(data: Seq<u8>)
        ensures
            Self::colors(data).len() == data.len() / 3,
            Self::decoding(data) == Self::decoding(data.subrange(0, 3 * (data.len() as int / 3))),
    {
        assert(Self::colors(data) =~= Self::colors(data.subrange(0, 3 * (data.len() as int / 3))));
    }
}

} // verus!
