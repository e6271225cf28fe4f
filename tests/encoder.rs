use unifont_bitmap::bitmap::Bitmap;
use unifont_bitmap::encoder::{page_sizes, EncodeError, GlyphSet};

#[test]
fn size_budget_rejects_oversized_page() {
    assert_eq!(page_sizes(7, 32769, 100), Err(EncodeError::PageTooLarge(7)));
    assert_eq!(page_sizes(7, 40000, 70000), Err(EncodeError::PageTooLarge(7)));
    assert_eq!(page_sizes(3, 32768, 65536), Err(EncodeError::StreamTooLarge(3)));
    assert_eq!(page_sizes(3, 32768, 65535), Ok((32768, 65535)));
    assert_eq!(page_sizes(0, 8704, 0), Ok((8704, 0)));
}

#[test]
fn encode_page_layout() {
    let mut set = GlyphSet::new();
    assert!(set.insert(0x0101, vec![0xAA; 16]));
    assert!(set.insert(0x0103, vec![0xBB; 32]));
    let payload = set.encode_page(1);
    assert_eq!(payload.len(), 512 + 16 + 32);
    assert_eq!(&payload[0..8], &[1, 1, 0, 0, 1, 1, 0, 1]);
    assert!(payload[8..512].iter().all(|b| *b == 1));
    assert_eq!(&payload[512..528], &[0xAA; 16]);
    assert_eq!(&payload[528..560], &[0xBB; 32]);
    let empty = set.encode_page(2);
    assert_eq!(empty, vec![1u8; 512]);
}

#[test]
fn insert_keeps_last_definition() {
    let mut set = GlyphSet::new();
    assert!(set.insert(0x41, vec![1; 16]));
    assert!(set.insert(0x41, vec![2; 32]));
    assert_eq!(set.len(), 1);
    let payload = set.encode_page(0);
    assert_eq!(&payload[0x82..0x84], &[0, 1]);
    assert_eq!(&payload[512..], &[2; 32]);
}

#[test]
fn insert_refuses_bad_glyphs() {
    let mut set = GlyphSet::new();
    assert!(!set.insert(0x110000, vec![0; 16]));
    assert!(!set.insert(0x41, vec![0; 15]));
    assert!(!set.insert(0x41, vec![0; 48]));
    assert_eq!(set.len(), 0);
}

#[test]
fn artifact_layout() {
    let mut set = GlyphSet::new();
    assert!(set.insert(0xFFFD, vec![7; 16]));
    let data = set.encode_font().unwrap();
    let dir_len = u32::from_be_bytes([data[0], data[1], data[2], data[3]]) as usize;
    assert!(4 + dir_len < data.len());
    // The directory is compressed, not stored as 17408 raw bytes.
    assert!(dir_len < 17408);
    let empty = GlyphSet::new().encode_font().unwrap();
    let empty_dir_len = u32::from_be_bytes([empty[0], empty[1], empty[2], empty[3]]) as usize;
    assert_eq!(empty.len(), 4 + empty_dir_len);
}

#[test]
fn bitmap_new_checks_length() {
    assert!(Bitmap::new(vec![0; 16]).is_some());
    assert!(Bitmap::new(vec![0; 32]).unwrap().is_wide());
    assert!(Bitmap::new(vec![0; 17]).is_none());
    assert!(Bitmap::new(vec![]).is_none());
    let b = Bitmap::new(vec![9; 16]).unwrap();
    assert_eq!(b.get_bytes(), &[9; 16]);
    assert_eq!(b.get_dimensions::<u8>(), (8, 16));
}
