//! Physical pixel dimensions (pHYs).

use crate::chunk::{decoded, next_u32, next_u8, Chunk, ChunkView};
use crate::consts;
use crate::encoder::{be_bytes_u32, chunk_written, lemma_be_u32_round_trip, Enc};
use crate::error::{DecoderError, EncoderError};
use crate::reader::be_u32;
use parsenic::Reader;
use vstd::prelude::*;

verus! {

/// The intended size of a pixel.
#[derive(Copy, Clone, Debug, PartialEq, Eq, Structural)]
pub struct Physical {
    /// Pixels per unit: X dimension
    pub ppu_x: u32,
    /// Pixels per unit: Y dimension
    pub ppu_y: u32,
    /// Unit is `meter` if true, `unknown` if false.
    pub is_meter: bool,
}

impl Physical {
    /// The nine bytes of the chunk: both densities, then the unit byte,
    /// which is 1 for the meter and 0 otherwise.
    pub open spec fn encoding(self) -> Seq<u8> {
        be_bytes_u32(self.ppu_x) + be_bytes_u32(self.ppu_y) + seq![
            if self.is_meter {
                1u8
            } else {
                0u8
            },
        ]
    }

    /// What a payload decodes to: it must be nine bytes long, and its unit
    /// byte must be 0 or 1.
    pub open spec fn decoding(data: Seq<u8>) -> Result<ChunkView, DecoderError> {
        if data.len() != 9 {
            Err(DecoderError::ChunkLength(consts::PHYSICAL))
        } else if data[8] > 1 {
            Err(DecoderError::PhysUnits)
        } else {
            Ok(
                ChunkView::Physical(
                    Physical {
                        ppu_x: be_u32(data.subrange(0, 4)),
                        ppu_y: be_u32(data.subrange(4, 8)),
                        is_meter: data[8] == 1,
                    },
                ),
            )
        }
    }

    /// Writes the chunk into the sink.
    pub fn write(&self, enc: &mut Enc) -> (r: Result<(), EncoderError>)
        ensures
            chunk_written(*old(enc), *final(enc), r, consts::PHYSICAL, self.encoding()),
            r is Ok,
    {
        enc.prepare(9, consts::PHYSICAL)?;
        enc.u32(self.ppu_x);
        enc.u32(self.ppu_y);
        enc.u8(if self.is_meter { 1 } else { 0 });
        assert(enc.payload@ =~= self.encoding());
        enc.write_crc();
        Ok(())
    }

    /// Decodes the payload of a physical dimensions chunk.
    pub fn parse(data: &[u8]) -> (r: Result<Chunk, DecoderError>)
        ensures
            decoded(r) == Self::decoding(data@),
    {
        if data.len() != 9 {
            return Err(DecoderError::ChunkLength(consts::PHYSICAL));
        }
        let mut reader = Reader::new(data);
        let ppu_x = next_u32(&mut reader, consts::PHYSICAL)?;
        let ppu_y = next_u32(&mut reader, consts::PHYSICAL)?;
        let is_meter = match next_u8(&mut reader, consts::PHYSICAL)? {
            0 => false,
            1 => true,
            _ => return Err(DecoderError::PhysUnits),
        };
        assert(data@.skip(4).subrange(0, 4) =~= data@.subrange(4, 8));
        Ok(Chunk::Physical(Physical { ppu_x, ppu_y, is_meter }))
    }

    /// Physical dimensions that are written and read back are the same.
    pub proof fn lemma_round_trip(self)
        ensures
            Self::decoding(self.encoding()) == Ok::<ChunkView, DecoderError>(
                ChunkView::Physical(self),
            ),
    {
        lemma_be_u32_round_trip(self.ppu_x);
        lemma_be_u32_round_trip(self.ppu_y);
        let data = self.encoding();
        assert(data.subrange(0, 4) =~= be_bytes_u32(self.ppu_x));
        assert(data.subrange(4, 8) =~= be_bytes_u32(self.ppu_y));
    }
}

} // verus!
