use png_chunks::chunk::{Background, Chunk, Physical, Time};
use png_chunks::consts;
use png_chunks::encoder::Enc;
use png_chunks::error::DecoderError;

#[test]
fn background_one_byte_is_a_palette_index() {
    assert_eq!(Background::parse(&[7]), Ok(Chunk::Background(Background::Palette(7))));
}

#[test]
fn background_two_bytes_are_a_gray_level() {
    assert_eq!(Background::parse(&[0x12, 0x34]), Ok(Chunk::Background(Background::Gray(0x1234))));
}

#[test]
fn background_six_bytes_are_a_colour() {
    assert_eq!(
        Background::parse(&[0x00, 0x01, 0x02, 0x03, 0xFF, 0xFE]),
        Ok(Chunk::Background(Background::Rgb(0x0001, 0x0203, 0xFFFE)))
    );
}

#[test]
fn background_three_bytes_are_refused() {
    assert_eq!(
        Background::parse(&[1, 2, 3]),
        Err(DecoderError::ChunkLength(consts::BACKGROUND))
    );
}

#[test]
fn background_other_lengths_are_refused() {
    let data = [0u8; 8];
    for len in [0usize, 4, 5, 7, 8] {
        assert_eq!(
            Background::parse(&data[..len]),
            Err(DecoderError::ChunkLength(consts::BACKGROUND))
        );
    }
}

#[test]
fn background_writes_its_layout() {
    let mut enc = Enc::new(6);
    assert_eq!(Background::Palette(9).write(&mut enc), Ok(()));
    assert_eq!(enc.tag, *b"bKGD");
    assert_eq!(enc.declared, 1);
    assert_eq!(enc.payload, vec![9]);
    assert!(enc.sealed);
    assert_eq!(enc.level, 6);

    assert_eq!(Background::Gray(0xABCD).write(&mut enc), Ok(()));
    assert_eq!(enc.declared, 2);
    assert_eq!(enc.payload, vec![0xAB, 0xCD]);

    assert_eq!(Background::Rgb(1, 0x0200, 0xFFFF).write(&mut enc), Ok(()));
    assert_eq!(enc.declared, 6);
    assert_eq!(enc.payload, vec![0, 1, 2, 0, 0xFF, 0xFF]);
    assert!(enc.sealed);
}

#[test]
fn background_round_trips() {
    for value in [
        Background::Palette(0),
        Background::Palette(255),
        Background::Gray(0),
        Background::Gray(0xFFFF),
        Background::Rgb(0, 0x8000, 0xFFFF),
    ] {
        let mut enc = Enc::new(0);
        assert_eq!(value.write(&mut enc), Ok(()));
        assert_eq!(Background::parse(&enc.payload), Ok(Chunk::Background(value)));
    }
}

#[test]
fn physical_reads_nine_bytes() {
    assert_eq!(
        Physical::parse(&[0, 0, 0x0B, 0x13, 0x01, 0x02, 0x03, 0x04, 1]),
        Ok(Chunk::Physical(Physical { ppu_x: 0x0B13, ppu_y: 0x0102_0304, is_meter: true }))
    );
    assert_eq!(
        Physical::parse(&[0xFF, 0xFF, 0xFF, 0xFF, 0, 0, 0, 0, 0]),
        Ok(Chunk::Physical(Physical { ppu_x: u32::MAX, ppu_y: 0, is_meter: false }))
    );
}

#[test]
fn physical_refuses_an_unknown_unit() {
    assert_eq!(Physical::parse(&[0, 0, 0, 1, 0, 0, 0, 1, 2]), Err(DecoderError::PhysUnits));
    assert_eq!(Physical::parse(&[0, 0, 0, 1, 0, 0, 0, 1, 255]), Err(DecoderError::PhysUnits));
}

#[test]
fn physical_refuses_other_lengths() {
    assert_eq!(
        Physical::parse(&[0, 0, 0, 1, 0, 0, 0, 1]),
        Err(DecoderError::ChunkLength(consts::PHYSICAL))
    );
    assert_eq!(
        Physical::parse(&[0, 0, 0, 1, 0, 0, 0, 1, 1, 0]),
        Err(DecoderError::ChunkLength(consts::PHYSICAL))
    );
    assert_eq!(Physical::parse(&[]), Err(DecoderError::ChunkLength(consts::PHYSICAL)));
}

#[test]
fn physical_writes_nine_bytes() {
    let mut enc = Enc::new(3);
    let value = Physical { ppu_x: 2835, ppu_y: 0x0A0B_0C0D, is_meter: true };
    assert_eq!(value.write(&mut enc), Ok(()));
    assert_eq!(enc.tag, *b"pHYs");
    assert_eq!(enc.declared, 9);
    assert_eq!(enc.payload, vec![0, 0, 0x0B, 0x13, 0x0A, 0x0B, 0x0C, 0x0D, 1]);
    assert!(enc.sealed);

    let value = Physical { ppu_x: 1, ppu_y: 1, is_meter: false };
    assert_eq!(value.write(&mut enc), Ok(()));
    assert_eq!(enc.payload, vec![0, 0, 0, 1, 0, 0, 0, 1, 0]);
}

#[test]
fn physical_round_trips() {
    for value in [
        Physical { ppu_x: 0, ppu_y: 0, is_meter: false },
        Physical { ppu_x: u32::MAX, ppu_y: 1, is_meter: true },
        Physical { ppu_x: 0x0102_0304, ppu_y: 0xFFFE_FDFC, is_meter: true },
    ] {
        let mut enc = Enc::new(0);
        assert_eq!(value.write(&mut enc), Ok(()));
        assert_eq!(Physical::parse(&enc.payload), Ok(Chunk::Physical(value)));
    }
}

#[test]
fn time_reads_seven_bytes() {
    assert_eq!(
        Time::parse(&[0x07, 0xE8, 2, 29, 23, 59, 60]),
        Ok(Chunk::Time(Time { year: 2024, month: 2, day: 29, hour: 23, minute: 59, second: 60 }))
    );
}

#[test]
fn time_keeps_fields_that_no_calendar_has() {
    assert_eq!(
        Time::parse(&[0, 0, 13, 0, 99, 255, 200]),
        Ok(Chunk::Time(Time { year: 0, month: 13, day: 0, hour: 99, minute: 255, second: 200 }))
    );
}

#[test]
fn time_refuses_other_lengths() {
    assert_eq!(
        Time::parse(&[0x07, 0xE8, 2, 29, 23, 59]),
        Err(DecoderError::ChunkLength(consts::TIME))
    );
    assert_eq!(
        Time::parse(&[0x07, 0xE8, 2, 29, 23, 59, 60, 0]),
        Err(DecoderError::ChunkLength(consts::TIME))
    );
}

#[test]
fn time_writes_seven_bytes() {
    let mut enc = Enc::new(0);
    let value = Time { year: 1999, month: 12, day: 31, hour: 23, minute: 59, second: 58 };
    assert_eq!(value.write(&mut enc), Ok(()));
    assert_eq!(enc.tag, *b"tIME");
    assert_eq!(enc.declared, 7);
    assert_eq!(enc.payload, vec![0x07, 0xCF, 12, 31, 23, 59, 58]);
    assert!(enc.sealed);
}

#[test]
fn time_round_trips() {
    for value in [
        Time { year: 0, month: 0, day: 0, hour: 0, minute: 0, second: 0 },
        Time { year: 0xFFFF, month: 255, day: 255, hour: 255, minute: 255, second: 255 },
        Time { year: 2024, month: 13, day: 32, hour: 24, minute: 60, second: 61 },
    ] {
        let mut enc = Enc::new(0);
        assert_eq!(value.write(&mut enc), Ok(()));
        assert_eq!(Time::parse(&enc.payload), Ok(Chunk::Time(value)));
    }
}

#[test]
fn chunk_writes_by_its_variant() {
    let mut enc = Enc::new(0);
    let chunk = Chunk::Time(Time { year: 1, month: 2, day: 3, hour: 4, minute: 5, second: 6 });
    assert_eq!(chunk.write(&mut enc), Ok(()));
    assert_eq!(enc.tag, consts::TIME);
    assert_eq!(enc.payload, vec![0, 1, 2, 3, 4, 5, 6]);

    let chunk = Chunk::Background(Background::Gray(0x0102));
    assert_eq!(chunk.write(&mut enc), Ok(()));
    assert_eq!(enc.tag, consts::BACKGROUND);
    assert_eq!(enc.payload, vec![1, 2]);

    let chunk = Chunk::Physical(Physical { ppu_x: 1, ppu_y: 2, is_meter: true });
    assert_eq!(chunk.write(&mut enc), Ok(()));
    assert_eq!(enc.tag, consts::PHYSICAL);
    assert_eq!(enc.payload, vec![0, 0, 0, 1, 0, 0, 0, 2, 1]);
}
