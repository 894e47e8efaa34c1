//! Reading big-endian fields from the payload of one chunk.
//!
//! The cursor is `parsenic::Reader`. Verus does not look inside it: the bytes
//! that it has not handed out yet are named by [`reader_bytes`], and each
//! reading function below says what it does to them.

use parsenic::be::Read as BeRead;
use parsenic::error::LenError;
use parsenic::Read;
use parsenic::Reader;
use vstd::prelude::*;

verus! {

/// `parsenic::Reader`, the cursor over a borrowed byte slice.
#[verifier::external_type_specification]
#[verifier::external_body]
pub struct ExReader<'a>(Reader<'a>);

/// `parsenic::error::LenError`, the error of a read that asked for more
/// bytes than were left.
#[verifier::external_type_specification]
#[verifier::external_body]
pub struct ExLenError(LenError);

/// The bytes that a reader has not handed out yet, in order.
pub uninterp spec fn reader_bytes(reader: Reader<'_>) -> Seq<u8>;

/// The value of two bytes read as a big-endian integer.
pub open spec fn be_u16(bytes: Seq<u8>) -> u16
    recommends
        bytes.len() == 2,
{
    (bytes[0] as int * 0x100 + bytes[1] as int) as u16
}

/// The value of four bytes read as a big-endian integer.
pub open spec fn be_u32(bytes: Seq<u8>) -> u32
    recommends
        bytes.len() == 4,
{
    (bytes[0] as int * 0x100_0000 + bytes[1] as int * 0x1_0000 + bytes[2] as int * 0x100
        + bytes[3] as int) as u32
}

/// `Reader::new`: the new reader has the whole of `buffer` before it.
pub assume_specification<'a>[ Reader::<'a>::new ](buffer: &'a [u8]) -> (reader: Reader<'a>)
    ensures
        reader_bytes(reader) == buffer@,
;

/// `Read::u8` on a `Reader`: hands out the next byte and moves past it; with
/// no byte left it fails and leaves the reader as it was.
#[verifier::external_body]
pub(crate) fn read_u8(reader: &mut Reader<'_>) -> (r: Result<u8, LenError>)
    ensures
        match r {
            Ok(byte) => {
                &&& reader_bytes(*old(reader)).len() >= 1
                &&& byte == reader_bytes(*old(reader))[0]
                &&& reader_bytes(*final(reader)) == reader_bytes(*old(reader)).skip(1)
            },
            Err(_) => {
                &&& reader_bytes(*old(reader)).len() == 0
                &&& reader_bytes(*final(reader)) == reader_bytes(*old(reader))
            },
        },
{
    reader.u8()
}

/// `be::Read::u16` on a `Reader`: hands out the next two bytes as one
/// big-endian integer and moves past them; with fewer than two bytes left it
/// fails and leaves the reader as it was.
#[verifier::external_body]
pub(crate) fn read_u16(reader: &mut Reader<'_>) -> (r: Result<u16, LenError>)
    ensures
        match r {
            Ok(value) => {
                &&& reader_bytes(*old(reader)).len() >= 2
                &&& value == be_u16(reader_bytes(*old(reader)).subrange(0, 2))
                &&& reader_bytes(*final(reader)) == reader_bytes(*old(reader)).skip(2)
            },
            Err(_) => {
                &&& reader_bytes(*old(reader)).len() < 2
                &&& reader_bytes(*final(reader)) == reader_bytes(*old(reader))
            },
        },
{
    BeRead::u16(reader)
}

/// `be::Read::u32` on a `Reader`: hands out the next four bytes as one
/// big-endian integer and moves past them; with fewer than four bytes left it
/// fails and leaves the reader as it was.
#[verifier::external_body]
pub(crate) fn read_u32(reader: &mut Reader<'_>) -> (r: Result<u32, LenError>)
    ensures
        match r {
            Ok(value) => {
                &&& reader_bytes(*old(reader)).len() >= 4
                &&& value == be_u32(reader_bytes(*old(reader)).subrange(0, 4))
                &&& reader_bytes(*final(reader)) == reader_bytes(*old(reader)).skip(4)
            },
            Err(_) => {
                &&& reader_bytes(*old(reader)).len() < 4
                &&& reader_bytes(*final(reader)) == reader_bytes(*old(reader))
            },
        },
{
    BeRead::u32(reader)
}

/// `Read::slice` on a `Reader`: hands out a copy of the next `len` bytes and
/// moves past them; with fewer than `len` bytes left it fails and leaves the
/// reader as it was.
#[verifier::external_body]
pub(crate) fn read_slice(reader: &mut Reader<'_>, len: usize) -> (r: Result<Vec<u8>, LenError>)
    ensures
        match r {
            Ok(bytes) => {
                &&& reader_bytes(*old(reader)).len() >= len
                &&& bytes@ == reader_bytes(*old(reader)).subrange(0, len as int)
                &&& reader_bytes(*final(reader)) == reader_bytes(*old(reader)).skip(len as int)
            },
            Err(_) => {
                &&& reader_bytes(*old(reader)).len() < len
                &&& reader_bytes(*final(reader)) == reader_bytes(*old(reader))
            },
        },
{
    reader.slice(len).map(|bytes| bytes.to_vec())
}

/// `Read::remaining` on a `Reader`: the number of bytes not handed out yet.
#[verifier::external_body]
pub(crate) fn reader_remaining(reader: &Reader<'_>) -> (n: usize)
    ensures
        n == reader_bytes(*reader).len(),
{
    reader.remaining()
}

} // verus!
