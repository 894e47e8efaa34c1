//! The sink that one chunk is written into.

use crate::error::EncoderError;
use crate::reader::{be_u16, be_u32};
use vstd::prelude::*;
use vstd::string::StringSliceAdditionalSpecFns;

verus! {

/// The longest payload that a chunk can declare.
pub const MAX_CHUNK_LEN: usize = 0x7FFF_FFFF;

/// The two bytes of a big-endian 16-bit integer.
pub open spec fn be_bytes_u16(value: u16) -> Seq<u8> {
    seq![(value / 0x100) as u8, (value % 0x100) as u8]
}

/// The four bytes of a big-endian 32-bit integer.
pub open spec fn be_bytes_u32(value: u32) -> Seq<u8> {
    seq![
        (value / 0x100_0000) as u8,
        (value / 0x1_0000 % 0x100) as u8,
        (value / 0x100 % 0x100) as u8,
        (value % 0x100) as u8,
    ]
}

/// Reading back the bytes of a 16-bit integer gives the integer.
pub proof fn lemma_be_u16_round_trip(value: u16)
    ensures
        be_bytes_u16(value).len() == 2,
        be_u16(be_bytes_u16(value)) == value,
{
}

/// Reading back the bytes of a 32-bit integer gives the integer.
pub proof fn lemma_be_u32_round_trip(value: u32)
    ensures
        be_bytes_u32(value).len() == 4,
        be_u32(be_bytes_u32(value)) == value,
{
}

/// What writing one chunk does to a sink: where the payload is short enough
/// to declare, the call succeeds and the sink holds the sealed chunk `tag`
/// with `payload`; where it is not, the call fails and the sink is untouched.
pub open spec fn chunk_written(
    before: Enc,
    after: Enc,
    r: Result<(), EncoderError>,
    tag: [u8; 4],
    payload: Seq<u8>,
) -> bool {
    if payload.len() <= MAX_CHUNK_LEN {
        r == Ok::<(), EncoderError>(()) && after.holds(before.level, tag, payload)
    } else {
        r == Err::<(), EncoderError>(EncoderError::ChunkTooBig) && after == before
    }
}

/// An in-memory sink for one chunk at a time.
///
/// A chunk is declared with its payload length and type tag, its payload is
/// appended field by field, and it is sealed where the framing layer appends
/// the checksum over tag and payload.
pub struct Enc {
    /// The compression level for text.
    pub level: u8,
    /// The type tag of the chunk.
    pub tag: [u8; 4],
    /// The payload length that was declared.
    pub declared: usize,
    /// The payload written so far.
    pub payload: Vec<u8>,
    /// True once the chunk has been sealed.
    pub sealed: bool,
}

impl Enc {
    /// True when the sink holds a sealed chunk whose payload has the length
    /// that was declared for it.
    pub open spec fn complete(&self) -> bool {
        self.sealed && self.payload@.len() == self.declared
    }

    /// True when the sink holds the sealed chunk `tag` with `payload`, and
    /// still has the compression level `level`.
    pub open spec fn holds(&self, level: u8, tag: [u8; 4], payload: Seq<u8>) -> bool {
        &&& self.level == level
        &&& self.tag == tag
        &&& self.payload@ == payload
        &&& self.complete()
    }

    /// True when the sink holds a chunk that was declared as `tag` with `len`
    /// payload bytes and has no payload yet, at the compression level `level`.
    pub open spec fn declared_as(&self, level: u8, tag: [u8; 4], len: usize) -> bool {
        &&& self.level == level
        &&& self.tag == tag
        &&& self.declared == len
        &&& self.payload@.len() == 0
        &&& !self.sealed
    }

    /// A sink with no chunk in it.
    pub fn new(level: u8) -> (enc: Enc)
        ensures
            enc.level == level,
            enc.payload@.len() == 0,
            enc.declared == 0,
            !enc.sealed,
    {
        Enc { level, tag: [0u8; 4], declared: 0, payload: Vec::new(), sealed: false }
    }

    /// The compression level for text.
    pub fn level(&self) -> (level: u8)
        ensures
            level == self.level,
    {
        self.level
    }

    /// Declares a chunk of `len` payload bytes with the type tag `tag`, and
    /// forgets the chunk that was in the sink. A length that a chunk cannot
    /// declare is refused, and the sink is left as it was.
    pub fn prepare(&mut self, len: usize, tag: [u8; 4]) -> (r: Result<(), EncoderError>)
        ensures
            len <= MAX_CHUNK_LEN ==> r == Ok::<(), EncoderError>(()),
            len > MAX_CHUNK_LEN ==> r == Err::<(), EncoderError>(EncoderError::ChunkTooBig),
            r is Ok ==> final(self).declared_as(old(self).level, tag, len),
            r is Err ==> *final(self) == *old(self),
    {
        if len > MAX_CHUNK_LEN {
            return Err(EncoderError::ChunkTooBig);
        }
        self.tag = tag;
        self.declared = len;
        self.payload.clear();
        self.sealed = false;
        Ok(())
    }

    /// Appends one byte.
    pub fn u8(&mut self, value: u8)
        ensures
            final(self).payload@ == old(self).payload@.push(value),
            final(self).level == old(self).level,
            final(self).tag == old(self).tag,
            final(self).declared == old(self).declared,
            final(self).sealed == old(self).sealed,
    {
        self.payload.push(value);
    }

    /// Appends a 16-bit integer, big end first.
    pub fn u16(&mut self, value: u16)
        ensures
            final(self).payload@ == old(self).payload@ + be_bytes_u16(value),
            final(self).level == old(self).level,
            final(self).tag == old(self).tag,
            final(self).declared == old(self).declared,
            final(self).sealed == old(self).sealed,
    {
        self.payload.push((value / 0x100) as u8);
        self.payload.push((value % 0x100) as u8);
        assert(self.payload@ =~= old(self).payload@ + be_bytes_u16(value));
    }

    /// Appends a 32-bit integer, big end first.
    pub fn u32(&mut self, value: u32)
        ensures
            final(self).payload@ == old(self).payload@ + be_bytes_u32(value),
            final(self).level == old(self).level,
            final(self).tag == old(self).tag,
            final(self).declared == old(self).declared,
            final(self).sealed == old(self).sealed,
    {
        self.payload.push((value / 0x100_0000) as u8);
        self.payload.push((value / 0x1_0000 % 0x100) as u8);
        self.payload.push((value / 0x100 % 0x100) as u8);
        self.payload.push((value % 0x100) as u8);
        assert(self.payload@ =~= old(self).payload@ + be_bytes_u32(value));
    }

    /// Appends bytes as they are.
    pub fn raw(&mut self, bytes: &[u8])
        ensures
            final(self).payload@ == old(self).payload@ + bytes@,
            final(self).level == old(self).level,
            final(self).tag == old(self).tag,
            final(self).declared == old(self).declared,
            final(self).sealed == old(self).sealed,
    {
        self.payload.extend_from_slice(bytes);
    }

    /// Appends the UTF-8 bytes of a string and the zero byte that ends it.
    pub fn str(&mut self, text: &str)
        ensures
            final(self).payload@ == old(self).payload@ + text.spec_bytes().push(0u8),
            final(self).level == old(self).level,
            final(self).tag == old(self).tag,
            final(self).declared == old(self).declared,
            final(self).sealed == old(self).sealed,
    {
        self.payload.extend_from_slice(text.as_bytes());
        self.payload.push(0);
        assert(self.payload@ =~= old(self).payload@ + text.spec_bytes().push(0u8));
    }

    /// Seals the chunk: nothing more belongs to its payload.
    pub fn write_crc(&mut self)
        ensures
            final(self).sealed,
            final(self).payload@ == old(self).payload@,
            final(self).level == old(self).level,
            final(self).tag == old(self).tag,
            final(self).declared == old(self).declared,
    {
        self.sealed = true;
    }
}

} // verus!
