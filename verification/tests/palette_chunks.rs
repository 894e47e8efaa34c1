use png_chunks::chunk::{Chunk, Palette, Rgb8, Transparency};
use png_chunks::consts;
use png_chunks::decoder::ParseContext;
use png_chunks::encoder::Enc;
use png_chunks::error::DecoderError;

fn rgb(red: u8, green: u8, blue: u8) -> Rgb8 {
    Rgb8 { red, green, blue }
}

#[test]
fn context_starts_without_a_palette() {
    let mut ctx = ParseContext::new();
    assert!(!ctx.has_palette());
    ctx.set_palette();
    assert!(ctx.has_palette());
    ctx.set_palette();
    assert!(ctx.has_palette());
}

#[test]
fn palette_reads_whole_triples() {
    let mut ctx = ParseContext::new();
    assert_eq!(
        Palette::parse(&[1, 2, 3, 4, 5, 6], &mut ctx),
        Ok(Chunk::Palette(Palette { palette: vec![rgb(1, 2, 3), rgb(4, 5, 6)] }))
    );
    assert!(ctx.has_palette());
}

#[test]
fn palette_of_ten_bytes_has_three_entries() {
    let mut ctx = ParseContext::new();
    let parsed = Palette::parse(&[10, 11, 12, 20, 21, 22, 30, 31, 32, 99], &mut ctx);
    assert_eq!(
        parsed,
        Ok(Chunk::Palette(Palette {
            palette: vec![rgb(10, 11, 12), rgb(20, 21, 22), rgb(30, 31, 32)]
        }))
    );
}

#[test]
fn palette_of_two_bytes_is_empty_and_still_counts() {
    let mut ctx = ParseContext::new();
    assert_eq!(
        Palette::parse(&[1, 2], &mut ctx),
        Ok(Chunk::Palette(Palette { palette: vec![] }))
    );
    assert!(ctx.has_palette());
    let mut ctx = ParseContext::new();
    assert_eq!(Palette::parse(&[], &mut ctx), Ok(Chunk::Palette(Palette { palette: vec![] })));
    assert!(ctx.has_palette());
}

#[test]
fn palette_writes_three_bytes_for_each_entry() {
    let mut enc = Enc::new(0);
    let palette = Palette { palette: vec![rgb(255, 0, 1), rgb(2, 3, 4)] };
    assert_eq!(palette.write(&mut enc), Ok(()));
    assert_eq!(enc.tag, *b"PLTE");
    assert_eq!(enc.declared, 6);
    assert_eq!(enc.payload, vec![255, 0, 1, 2, 3, 4]);
    assert!(enc.sealed);

    let empty = Palette { palette: vec![] };
    assert_eq!(empty.write(&mut enc), Ok(()));
    assert_eq!(enc.declared, 0);
    assert_eq!(enc.payload, Vec::<u8>::new());
}

#[test]
fn palette_round_trips() {
    let palette = Palette { palette: (0..=255u8).map(|i| rgb(i, 255 - i, i / 2)).collect() };
    let mut enc = Enc::new(0);
    assert_eq!(palette.write(&mut enc), Ok(()));
    assert_eq!(enc.payload.len(), 768);
    let mut ctx = ParseContext::new();
    assert_eq!(Palette::parse(&enc.payload, &mut ctx), Ok(Chunk::Palette(palette)));
}

#[test]
fn transparency_without_a_palette_goes_by_length() {
    let ctx = ParseContext::new();
    assert_eq!(
        Transparency::parse(&[0x01, 0x02], &ctx),
        Ok(Chunk::Transparency(Transparency::GrayKey(0x0102)))
    );
    assert_eq!(
        Transparency::parse(&[0, 1, 0, 2, 0xFF, 0xFF], &ctx),
        Ok(Chunk::Transparency(Transparency::RgbKey(1, 2, 0xFFFF)))
    );
    let data = [0u8; 8];
    for len in [0usize, 1, 3, 4, 5, 7, 8] {
        assert_eq!(
            Transparency::parse(&data[..len], &ctx),
            Err(DecoderError::ChunkLength(consts::TRANSPARENCY))
        );
    }
}

#[test]
fn transparency_after_a_palette_takes_any_length() {
    let mut ctx = ParseContext::new();
    assert!(Palette::parse(&[1, 2, 3], &mut ctx).is_ok());
    let data = [9u8, 8, 7, 6, 5, 4, 3];
    for len in 0..=7usize {
        assert_eq!(
            Transparency::parse(&data[..len], &ctx),
            Ok(Chunk::Transparency(Transparency::Palette(data[..len].to_vec())))
        );
    }
}

#[test]
fn transparency_writes_its_layout() {
    let mut enc = Enc::new(0);
    assert_eq!(Transparency::Palette(vec![0, 128, 255]).write(&mut enc), Ok(()));
    assert_eq!(enc.tag, *b"tRNS");
    assert_eq!(enc.declared, 3);
    assert_eq!(enc.payload, vec![0, 128, 255]);
    assert!(enc.sealed);

    assert_eq!(Transparency::RgbKey(0x0102, 0x0304, 0x0506).write(&mut enc), Ok(()));
    assert_eq!(enc.declared, 6);
    assert_eq!(enc.payload, vec![1, 2, 3, 4, 5, 6]);

    assert_eq!(Transparency::GrayKey(0xFF00).write(&mut enc), Ok(()));
    assert_eq!(enc.declared, 2);
    assert_eq!(enc.payload, vec![0xFF, 0]);

    assert_eq!(Transparency::Palette(vec![]).write(&mut enc), Ok(()));
    assert_eq!(enc.declared, 0);
    assert!(enc.payload.is_empty());
}

#[test]
fn transparency_round_trips_in_its_own_context() {
    let keys = ParseContext::new();
    let mut alphas = ParseContext::new();
    alphas.set_palette();
    for (value, ctx) in [
        (Transparency::GrayKey(0), &keys),
        (Transparency::GrayKey(0xFFFF), &keys),
        (Transparency::RgbKey(1, 2, 3), &keys),
        (Transparency::Palette(vec![]), &alphas),
        (Transparency::Palette(vec![1, 2]), &alphas),
        (Transparency::Palette(vec![1, 2, 3, 4, 5, 6]), &alphas),
    ] {
        let mut enc = Enc::new(0);
        assert_eq!(value.write(&mut enc), Ok(()));
        assert_eq!(Transparency::parse(&enc.payload, ctx), Ok(Chunk::Transparency(value)));
    }
}

#[test]
fn transparency_key_read_after_a_palette_is_alpha_values() {
    let mut ctx = ParseContext::new();
    ctx.set_palette();
    let mut enc = Enc::new(0);
    assert_eq!(Transparency::GrayKey(5).write(&mut enc), Ok(()));
    assert_eq!(
        Transparency::parse(&enc.payload, &ctx),
        Ok(Chunk::Transparency(Transparency::Palette(vec![0, 5])))
    );
}

#[test]
fn transparency_accessors_are_checked() {
    let alpha = Transparency::Palette(vec![1, 2, 3]);
    assert_eq!(alpha.len(), Some(3));
    assert_eq!(alpha.as_slice(), Some(&[1u8, 2, 3][..]));
    let empty = Transparency::Palette(vec![]);
    assert_eq!(empty.len(), Some(0));
    assert_eq!(Transparency::GrayKey(1).len(), None);
    assert_eq!(Transparency::GrayKey(1).as_slice(), None);
    assert_eq!(Transparency::RgbKey(1, 2, 3).len(), None);
    assert_eq!(Transparency::RgbKey(1, 2, 3).as_slice(), None);
}

#[test]
fn chunk_writes_palette_kinds() {
    let mut enc = Enc::new(0);
    let chunk = Chunk::Palette(Palette { palette: vec![rgb(1, 2, 3)] });
    assert_eq!(chunk.write(&mut enc), Ok(()));
    assert_eq!(enc.tag, consts::PALETTE);
    assert_eq!(enc.payload, vec![1, 2, 3]);
    let chunk = Chunk::Transparency(Transparency::GrayKey(7));
    assert_eq!(chunk.write(&mut enc), Ok(()));
    assert_eq!(enc.tag, consts::TRANSPARENCY);
    assert_eq!(enc.payload, vec![0, 7]);
}
