//! Transparency (tRNS).

use crate::chunk::{decoded, next_u16, Chunk, ChunkView};
use crate::consts;
use crate::decoder::ParseContext;
use crate::encoder::{be_bytes_u16, chunk_written, lemma_be_u16_round_trip, Enc};
use crate::error::{DecoderError, EncoderError};
use crate::reader::be_u16;
use parsenic::Reader;
use vstd::prelude::*;
use vstd::slice::slice_to_vec;

verus! {

/// Which pixels of an image are transparent.
#[derive(Debug, Clone, PartialEq)]
#[allow(variant_size_differences)]
#[must_use]
pub enum Transparency {
    /// Alpha values for the first `alpha.len()` entries in palette.
    Palette(Vec<u8>),
    /// What RGB value should be replaced with a transparent pixel
    RgbKey(u16, u16, u16),
    /// What gray value should be replaced with a transparent pixel
    GrayKey(u16),
}

/// What a transparency chunk holds, as mathematical values.
pub enum TransparencyView {
    /// Alpha values for the first entries of the palette.
    Palette(Seq<u8>),
    /// The colour that stands for a transparent pixel.
    RgbKey(u16, u16, u16),
    /// The gray level that stands for a transparent pixel.
    GrayKey(u16),
}

impl View for Transparency {
    type V = TransparencyView;

    open spec fn view(&self) -> TransparencyView {
        match *self {
            Transparency::Palette(alpha) => TransparencyView::Palette(alpha@),
            Transparency::RgbKey(red, green, blue) => TransparencyView::RgbKey(red, green, blue),
            Transparency::GrayKey(value) => TransparencyView::GrayKey(value),
        }
    }
}

impl TransparencyView {
    /// The payload of the chunk: the alpha values as they are, or the six
    /// bytes of a colour key, or the two bytes of a gray key.
    pub open spec fn encoding(self) -> Seq<u8> {
        match self {
            TransparencyView::Palette(alpha) => alpha,
            TransparencyView::RgbKey(red, green, blue) => be_bytes_u16(red) + be_bytes_u16(green)
                + be_bytes_u16(blue),
            TransparencyView::GrayKey(value) => be_bytes_u16(value),
        }
    }
}

impl Transparency {
    /// What a payload decodes to. After a palette chunk, a payload of any
    /// length is the alpha values of the palette. Before one, two bytes are a
    /// gray key, six bytes are a colour key, and any other length is an
    /// error.
    pub open spec fn decoding(data: Seq<u8>, palette: bool) -> Result<ChunkView, DecoderError> {
        if palette {
            Ok(ChunkView::Transparency(TransparencyView::Palette(data)))
        } else if data.len() == 2 {
            Ok(ChunkView::Transparency(TransparencyView::GrayKey(be_u16(data))))
        } else if data.len() == 6 {
            Ok(
                ChunkView::Transparency(
                    TransparencyView::RgbKey(
                        be_u16(data.subrange(0, 2)),
                        be_u16(data.subrange(2, 4)),
                        be_u16(data.subrange(4, 6)),
                    ),
                ),
            )
        } else {
            Err(DecoderError::ChunkLength(consts::TRANSPARENCY))
        }
    }

    /// The number of alpha values, where the chunk holds alpha values for a
    /// palette; `None` where it holds a key.
    pub fn len(&self) -> (n: Option<usize>)
        ensures
            n == match self@ {
                TransparencyView::Palette(alpha) => Some(alpha.len() as usize),
                _ => None::<usize>,
            },
    {
        match self.as_slice() {
            Some(alpha) => Some(alpha.len()),
            None => None,
        }
    }

    /// The alpha values, where the chunk holds alpha values for a palette;
    /// `None` where it holds a key.
    pub fn as_slice(&self) -> (alpha: Option<&[u8]>)
        ensures
            match self@ {
                TransparencyView::Palette(values) => alpha matches Some(slice) && slice@ == values,
                _ => alpha is None,
            },
    {
        match self {
            Transparency::Palette(alpha) => Some(alpha.as_slice()),
            _ => None,
        }
    }

    /// Decodes the payload of a transparency chunk, in the light of what the
    /// session has seen.
    pub fn parse(data: &[u8], ctx: &ParseContext) -> (r: Result<Chunk, DecoderError>)
        ensures
            decoded(r) == Self::decoding(data@, ctx.palette),
    {
        if ctx.has_palette() {
            let alpha = slice_to_vec(data);
            Ok(Chunk::Transparency(Transparency::Palette(alpha)))
        } else {
            match data.len() {
                2 => {
                    let mut reader = Reader::new(data);
                    let value = next_u16(&mut reader, consts::TRANSPARENCY)?;
                    assert(data@.subrange(0, 2) =~= data@);
                    Ok(Chunk::Transparency(Transparency::GrayKey(value)))
                },
                6 => {
                    let mut reader = Reader::new(data);
                    let red = next_u16(&mut reader, consts::TRANSPARENCY)?;
                    let green = next_u16(&mut reader, consts::TRANSPARENCY)?;
                    let blue = next_u16(&mut reader, consts::TRANSPARENCY)?;
                    assert(data@.skip(2).subrange(0, 2) =~= data@.subrange(2, 4));
                    assert(data@.skip(2).skip(2).subrange(0, 2) =~= data@.subrange(4, 6));
                    Ok(Chunk::Transparency(Transparency::RgbKey(red, green, blue)))
                },
                _ => Err(DecoderError::ChunkLength(consts::TRANSPARENCY)),
            }
        }
    }

    /// Writes the chunk into the sink.
    pub fn write(&self, enc: &mut Enc) -> (r: Result<(), EncoderError>)
        ensures
            chunk_written(*old(enc), *final(enc), r, consts::TRANSPARENCY, self@.encoding()),
    {
        match self {
            Transparency::Palette(alpha) => {
                enc.prepare(alpha.len(), consts::TRANSPARENCY)?;
                let mut i: usize = 0;
                while i < alpha.len()
                    invariant
                        0 <= i <= alpha.len(),
                        enc.payload@ == alpha@.subrange(0, i as int),
                        enc.level == old(enc).level,
                        enc.tag == consts::TRANSPARENCY,
                        enc.declared == alpha.len(),
                        !enc.sealed,
                    decreases alpha.len() - i,
                {
                    enc.u8(alpha[i]);
                    assert(enc.payload@ =~= alpha@.subrange(0, i + 1));
                    i += 1;
                }
                assert(enc.payload@ =~= alpha@);
            },
            Transparency::RgbKey(red, green, blue) => {
                enc.prepare(6, consts::TRANSPARENCY)?;
                enc.u16(*red);
                enc.u16(*green);
                enc.u16(*blue);
                assert(enc.payload@ =~= self@.encoding());
            },
            Transparency::GrayKey(value) => {
                enc.prepare(2, consts::TRANSPARENCY)?;
                enc.u16(*value);
                assert(enc.payload@ =~= self@.encoding());
            },
        }
        enc.write_crc();
        Ok(())
    }

    /// Transparency that is written and read back is the same, where the
    /// session's palette flag agrees with the variant: alpha values are read
    /// back after a palette chunk, a key without one.
    pub proof fn lemma_round_trip(value: TransparencyView, palette: bool)
        requires
            palette == (value is Palette),
        ensures
            Transparency::decoding(value.encoding(), palette) == Ok::<ChunkView, DecoderError>(
                ChunkView::Transparency(value),
            ),
    {
        match value {
            TransparencyView::Palette(alpha) => {},
            TransparencyView::GrayKey(key) => {
                lemma_be_u16_round_trip(key);
            },
            TransparencyView::RgbKey(red, green, blue) => {
                lemma_be_u16_round_trip(red);
                lemma_be_u16_round_trip(green);
                lemma_be_u16_round_trip(blue);
                let data = value.encoding();
                assert(data.subrange(0, 2) =~= be_bytes_u16(red));
                assert(data.subrange(2, 4) =~= be_bytes_u16(green));
                assert(data.subrange(4, 6) =~= be_bytes_u16(blue));
            },
        }
    }

    /// After a palette chunk every payload is accepted, as alpha values.
    pub proof fn lemma_after_palette(data: Seq<u8>)
        ensures
            Transparency::decoding(data, true) == Ok::<ChunkView, DecoderError>(
                ChunkView::Transparency(TransparencyView::Palette(data)),
            ),
    {
    }
}

} // verus!
