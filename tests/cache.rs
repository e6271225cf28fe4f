use unifont_bitmap::cache::{FontError, Unifont};
use unifont_bitmap::encoder::GlyphSet;

fn narrow(seed: u8) -> Vec<u8> {
    (0..16u8).map(|i| seed.wrapping_mul(31).wrapping_add(i)).collect()
}

fn wide(seed: u8) -> Vec<u8> {
    (0..32u8).map(|i| seed.wrapping_mul(17).wrapping_add(i * 3)).collect()
}

fn font(glyphs: &[(u32, Vec<u8>)]) -> Vec<u8> {
    let mut set = GlyphSet::new();
    for (c, b) in glyphs {
        assert!(set.insert(*c, b.clone()));
    }
    set.encode_font().unwrap()
}

fn sample_font() -> Vec<u8> {
    font(&[
        (0x0000, narrow(1)),
        (0x0041, narrow(2)),
        (0x00FF, wide(3)),
        (0x4E95, wide(4)),
        (0xFFFD, narrow(5)),
        (0x10FFFF, wide(6)),
    ])
}

#[test]
fn bogus_page() {
    let mut unifont = Unifont::open(sample_font()).unwrap();
    let fffd = unifont.load_bitmap(0xFFFD).unwrap();
    drop(fffd);
    let bad = unifont.load_bitmap(0x104560).unwrap();
    drop(bad);
    let fffd = unifont.get_bitmap(0xFFFD);
    let bad = unifont.get_bitmap(0x104560);
    assert_eq!(fffd, bad);
}

#[test]
fn round_trip_every_glyph() {
    let glyphs = vec![
        (0x0000, narrow(1)),
        (0x0041, narrow(2)),
        (0x00FF, wide(3)),
        (0x4E95, wide(4)),
        (0xFFFD, narrow(5)),
        (0x10FFFF, wide(6)),
    ];
    let mut unifont = Unifont::open(font(&glyphs)).unwrap();
    for (c, b) in &glyphs {
        let bitmap = unifont.load_bitmap(*c).unwrap();
        assert_eq!(bitmap.get_bytes(), &b[..]);
        assert_eq!(bitmap.is_wide(), b.len() == 32);
    }
}

#[test]
fn fallback_for_absent_codepoints() {
    let mut unifont = Unifont::open(sample_font()).unwrap();
    let fallback = unifont.load_bitmap(0xFFFD).unwrap().get_bytes().to_vec();
    assert_eq!(fallback, narrow(5));
    for c in [0x0042u32, 0x0100, 0x4E94, 0x10FFFE, 0x20000] {
        assert_eq!(unifont.load_bitmap(c).unwrap().get_bytes(), &fallback[..]);
    }
}

#[test]
fn load_page_twice_changes_nothing() {
    let mut unifont = Unifont::open(sample_font()).unwrap();
    assert_eq!(unifont.load_page(0x4E), Ok(()));
    let first = unifont.get_bitmap(0x4E95).unwrap().get_bytes().to_vec();
    let absent = unifont.get_bitmap(0x4E00).unwrap().get_bytes().to_vec();
    assert_eq!(unifont.load_page(0x4E), Ok(()));
    assert_eq!(unifont.get_bitmap(0x4E95).unwrap().get_bytes(), &first[..]);
    assert_eq!(unifont.get_bitmap(0x4E00).unwrap().get_bytes(), &absent[..]);
    assert_eq!(first, wide(4));
}

#[test]
fn get_bitmap_is_lazy() {
    let mut unifont = Unifont::open(sample_font()).unwrap();
    assert_eq!(unifont.get_bitmap(0x4E95), None);
    assert_eq!(unifont.get_bitmap(0x1234), None);
    assert_eq!(unifont.load_page(0x4E), Ok(()));
    assert_eq!(unifont.get_bitmap(0x4E95).unwrap().get_bytes(), &wide(4)[..]);
    assert_eq!(unifont.get_bitmap(0x1234), None);
    unifont.load_bitmap(0x1234).unwrap();
    assert_eq!(unifont.get_bitmap(0x1234).unwrap().get_bytes(), &narrow(5)[..]);
}

#[test]
fn fallback_page_is_loaded_on_open() {
    let unifont = Unifont::open(sample_font()).unwrap();
    assert_eq!(unifont.get_bitmap(0xFFFD).unwrap().get_bytes(), &narrow(5)[..]);
    assert_eq!(unifont.get_bitmap(0xFF00).unwrap().get_bytes(), &narrow(5)[..]);
}

#[test]
fn boundary_codepoints() {
    let mut unifont = Unifont::open(sample_font()).unwrap();
    assert_eq!(unifont.load_bitmap(0x0).unwrap().get_bytes(), &narrow(1)[..]);
    assert_eq!(unifont.load_bitmap(0x10FFFF).unwrap().get_bytes(), &wide(6)[..]);
    assert_eq!(unifont.load_bitmap(0x110000), Err(FontError::InvalidCodepoint));
    assert_eq!(unifont.load_bitmap(u32::MAX), Err(FontError::InvalidCodepoint));
    assert_eq!(unifont.load_page(0x10FF), Ok(()));
    assert_eq!(unifont.load_page(0x1100), Err(FontError::PageOutOfRange));
}

#[test]
fn boundary_codepoints_fall_back() {
    let mut unifont = Unifont::open(font(&[(0xFFFD, wide(9))])).unwrap();
    assert_eq!(unifont.load_bitmap(0x0).unwrap().get_bytes(), &wide(9)[..]);
    assert_eq!(unifont.load_bitmap(0x10FFFF).unwrap().get_bytes(), &wide(9)[..]);
}

#[test]
fn two_glyph_scenario() {
    let b1 = narrow(11);
    let b2 = narrow(12);
    let data = font(&[(0x0041, b1.clone()), (0xFFFD, b2.clone())]);
    let mut unifont = Unifont::open(data.clone()).unwrap();
    assert_eq!(unifont.get_bitmap(0x0041), None);
    assert_eq!(unifont.load_page(0), Ok(()));
    assert_eq!(unifont.get_bitmap(0x0041).unwrap().get_bytes(), &b1[..]);
    let mut fresh = Unifont::open(data).unwrap();
    assert_eq!(fresh.load_bitmap(0x0041).unwrap().get_bytes(), &b1[..]);
    assert_eq!(fresh.load_bitmap(0x0042).unwrap().get_bytes(), &b2[..]);
}

#[test]
fn dimensions_follow_width() {
    let mut unifont = Unifont::open(sample_font()).unwrap();
    let n = unifont.load_bitmap(0x41).unwrap();
    assert!(!n.is_wide());
    assert_eq!(n.get_dimensions::<u32>(), (8, 16));
    let w = unifont.load_bitmap(0x4E95).unwrap();
    assert!(w.is_wide());
    assert_eq!(w.get_dimensions::<u16>(), (16, 16));
}

#[test]
fn open_rejects_short_data() {
    assert_eq!(Unifont::open(vec![]).err(), Some(FontError::CorruptDirectory));
    assert_eq!(Unifont::open(vec![0, 0, 1]).err(), Some(FontError::CorruptDirectory));
}

#[test]
fn open_rejects_length_past_end() {
    let mut data = sample_font();
    data[0] = 0xFF;
    assert_eq!(Unifont::open(data).err(), Some(FontError::CorruptDirectory));
}

#[test]
fn open_rejects_garbage_directory() {
    let data = vec![0, 0, 0, 4, 1, 2, 3, 4];
    assert_eq!(Unifont::open(data).err(), Some(FontError::CorruptDirectory));
}

#[test]
fn open_requires_fallback_glyph() {
    let data = font(&[(0x0041, narrow(1)), (0xFF00, narrow(2))]);
    assert_eq!(Unifont::open(data).err(), Some(FontError::MissingFallback));
    let data = font(&[(0x0041, narrow(1))]);
    assert_eq!(Unifont::open(data).err(), Some(FontError::MissingFallback));
}

#[test]
fn corrupt_page_stream_is_reported() {
    let mut data = font(&[(0x0041, narrow(1)), (0xFFFD, narrow(2))]);
    let dir_len = u32::from_be_bytes([data[0], data[1], data[2], data[3]]) as usize;
    // The stream of page 0 comes first after the directory.
    let at = 4 + dir_len + 2;
    data[at] ^= 0xFF;
    data[at + 1] ^= 0xFF;
    let mut unifont = Unifont::open(data).unwrap();
    assert_eq!(unifont.load_page(0), Err(FontError::CorruptPage(0)));
    assert_eq!(unifont.load_bitmap(0x41).err(), Some(FontError::CorruptPage(0)));
    assert_eq!(unifont.get_bitmap(0x41), None);
}

#[test]
fn open_rejects_short_directory() {
    let mut e = flate2::write::ZlibEncoder::new(Vec::new(), flate2::Compression::best());
    std::io::Write::write_all(&mut e, &[0u8; 100]).unwrap();
    let stream = e.finish().unwrap();
    let mut data = (stream.len() as u32).to_be_bytes().to_vec();
    data.extend(stream);
    assert_eq!(Unifont::open(data).err(), Some(FontError::CorruptDirectory));
}
