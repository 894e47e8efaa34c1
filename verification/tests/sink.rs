use png_chunks::consts;
use png_chunks::encoder::{Enc, MAX_CHUNK_LEN};
use png_chunks::error::EncoderError;

#[test]
fn sink_starts_empty() {
    let enc = Enc::new(9);
    assert_eq!(enc.level(), 9);
    assert_eq!(enc.declared, 0);
    assert!(enc.payload.is_empty());
    assert!(!enc.sealed);
}

#[test]
fn sink_appends_fields_big_end_first() {
    let mut enc = Enc::new(0);
    assert_eq!(enc.prepare(15, consts::TIME), Ok(()));
    enc.u8(0xAB);
    enc.u16(0x0102);
    enc.u32(0xDEAD_BEEF);
    enc.raw(&[7, 8]);
    enc.str("h\u{e9}!");
    assert_eq!(
        enc.payload,
        vec![0xAB, 1, 2, 0xDE, 0xAD, 0xBE, 0xEF, 7, 8, b'h', 0xC3, 0xA9, b'!', 0]
    );
    enc.u16(0xFFFF);
    enc.u32(0);
    enc.u32(0x0001_0000);
    assert_eq!(&enc.payload[14..], &[0xFF, 0xFF, 0, 0, 0, 0, 0, 1, 0, 0]);
    assert!(!enc.sealed);
    enc.write_crc();
    assert!(enc.sealed);
    assert_eq!(enc.tag, consts::TIME);
    assert_eq!(enc.declared, 15);
}

#[test]
fn sink_forgets_the_chunk_before() {
    let mut enc = Enc::new(4);
    assert_eq!(enc.prepare(1, consts::BACKGROUND), Ok(()));
    enc.u8(1);
    enc.write_crc();
    assert_eq!(enc.prepare(2, consts::TRANSPARENCY), Ok(()));
    assert!(enc.payload.is_empty());
    assert!(!enc.sealed);
    assert_eq!(enc.tag, consts::TRANSPARENCY);
    assert_eq!(enc.declared, 2);
    assert_eq!(enc.level(), 4);
}

#[test]
fn sink_refuses_a_length_that_no_chunk_can_declare() {
    let mut enc = Enc::new(0);
    assert_eq!(enc.prepare(MAX_CHUNK_LEN, consts::PALETTE), Ok(()));
    enc.u8(5);
    enc.write_crc();
    assert_eq!(
        enc.prepare(MAX_CHUNK_LEN + 1, consts::TIME),
        Err(EncoderError::ChunkTooBig)
    );
    assert_eq!(enc.tag, consts::PALETTE);
    assert_eq!(enc.declared, MAX_CHUNK_LEN);
    assert_eq!(enc.payload, vec![5]);
    assert!(enc.sealed);
    assert_eq!(enc.prepare(usize::MAX, consts::TIME), Err(EncoderError::ChunkTooBig));
}

#[test]
fn tags_are_the_four_letters() {
    assert_eq!(&consts::BACKGROUND, b"bKGD");
    assert_eq!(&consts::ITEXT, b"iTXt");
    assert_eq!(&consts::PHYSICAL, b"pHYs");
    assert_eq!(&consts::PALETTE, b"PLTE");
    assert_eq!(&consts::TIME, b"tIME");
    assert_eq!(&consts::TRANSPARENCY, b"tRNS");
    assert_eq!(&consts::ZTEXT, b"zTXt");
}
