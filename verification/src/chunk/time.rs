//! Time of last modification (tIME).

use crate::chunk::{decoded, next_u16, next_u8, Chunk, ChunkView};
use crate::consts;
use crate::encoder::{be_bytes_u16, chunk_written, lemma_be_u16_round_trip, Enc};
use crate::error::{DecoderError, EncoderError};
use crate::reader::be_u16;
use parsenic::Reader;
use vstd::prelude::*;

verus! {

/// When the image was last changed. No field is held to the calendar: a
/// month of 13 is stored and written as it is.
#[derive(Copy, Clone, Debug, PartialEq, Eq, Structural)]
#[allow(missing_docs)]
pub struct Time {
    pub year: u16,
    pub month: u8,
    pub day: u8,
    pub hour: u8,
    pub minute: u8,
    pub second: u8,
}

impl Time {
    /// The seven bytes of the chunk: the year, then month, day, hour, minute
    /// and second.
    pub open spec fn encoding(self) -> Seq<u8> {
        be_bytes_u16(self.year) + seq![self.month, self.day, self.hour, self.minute, self.second]
    }

    /// What a payload decodes to: it must be seven bytes long, and every
    /// field is taken as it stands.
    pub open spec fn decoding(data: Seq<u8>) -> Result<ChunkView, DecoderError> {
        if data.len() != 7 {
            Err(DecoderError::ChunkLength(consts::TIME))
        } else {
            Ok(
                ChunkView::Time(
                    Time {
                        year: be_u16(data.subrange(0, 2)),
                        month: data[2],
                        day: data[3],
                        hour: data[4],
                        minute: data[5],
                        second: data[6],
                    },
                ),
            )
        }
    }

    /// Writes the chunk into the sink.
    pub fn write(&self, enc: &mut Enc) -> (r: Result<(), EncoderError>)
        ensures
            chunk_written(*old(enc), *final(enc), r, consts::TIME, self.encoding()),
            r is Ok,
    {
        enc.prepare(7, consts::TIME)?;
        enc.u16(self.year);
        enc.u8(self.month);
        enc.u8(self.day);
        enc.u8(self.hour);
        enc.u8(self.minute);
        enc.u8(self.second);
        assert(enc.payload@ =~= self.encoding());
        enc.write_crc();
        Ok(())
    }

    /// Decodes the payload of a time chunk.
    pub fn parse(data: &[u8]) -> (r: Result<Chunk, DecoderError>)
        ensures
            decoded(r) == Self::decoding(data@),
    {
        if data.len() != 7 {
            return Err(DecoderError::ChunkLength(consts::TIME));
        }
        let mut reader = Reader::new(data);
        let year = next_u16(&mut reader, consts::TIME)?;
        let month = next_u8(&mut reader, consts::TIME)?;
        let day = next_u8(&mut reader, consts::TIME)?;
        let hour = next_u8(&mut reader, consts::TIME)?;
        let minute = next_u8(&mut reader, consts::TIME)?;
        let second = next_u8(&mut reader, consts::TIME)?;
        Ok(Chunk::Time(Time { year, month, day, hour, minute, second }))
    }

    /// A time that is written and read back is the same.
    pub proof fn lemma_round_trip(self)
        ensures
            Self::decoding(self.encoding()) == Ok::<ChunkView, DecoderError>(ChunkView::Time(self)),
    {
        lemma_be_u16_round_trip(self.year);
        assert(self.encoding().subrange(0, 2) =~= be_bytes_u16(self.year));
    }
}

} // verus!
