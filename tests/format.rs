use unifont_bitmap::format::{read_be16, read_be32};
use unifont_bitmap::hexline::parse_hex_line;
use unifont_bitmap::page::decode_page;

#[test]
fn big_endian_reads() {
    let bytes = [0x12, 0x34, 0x56, 0x78, 0x9A];
    assert_eq!(read_be16(&bytes, 0), 0x1234);
    assert_eq!(read_be16(&bytes, 3), 0x789A);
    assert_eq!(read_be32(&bytes, 1), 0x3456789A);
}

#[test]
fn decode_page_offsets() {
    let mut payload = vec![1u8; 512];
    payload[0] = 0;
    payload[1] = 0;
    payload[4] = 0;
    payload[5] = 1;
    payload[510] = 0;
    payload[511] = 0;
    payload.extend(vec![0u8; 16 + 32 + 16]);
    let offsets = decode_page(&payload).unwrap();
    assert_eq!(offsets.len(), 256);
    assert_eq!(offsets[0], 512);
    assert_eq!(offsets[1], 0);
    assert_eq!(offsets[2], 528 | 1);
    assert_eq!(offsets[3], 0);
    assert_eq!(offsets[255], 560);
}

#[test]
fn decode_page_rejects_unknown_tag() {
    let mut payload = vec![1u8; 512];
    payload[6] = 2;
    assert_eq!(decode_page(&payload), None);
}

#[test]
fn decode_page_rejects_wrong_length() {
    let mut payload = vec![1u8; 512];
    payload[0] = 0;
    payload[1] = 0;
    payload.extend(vec![0u8; 15]);
    assert_eq!(decode_page(&payload), None);
    assert_eq!(decode_page(&[1u8; 511]), None);
    assert_eq!(decode_page(&[1u8; 513]), None);
    assert_eq!(decode_page(&[1u8; 512]), Some(vec![0u16; 256]));
}

#[test]
fn parse_narrow_record() {
    let line = b"0041:0000000018242442427E424242420000";
    let (c, bytes) = parse_hex_line(line).unwrap();
    assert_eq!(c, 0x41);
    assert_eq!(bytes, vec![0, 0, 0, 0, 0x18, 0x24, 0x24, 0x42, 0x42, 0x7E, 0x42, 0x42, 0x42, 0x42, 0, 0]);
}

#[test]
fn parse_wide_record_with_cr() {
    let mut line = b"10FFFF:".to_vec();
    line.extend(b"00FF".repeat(16));
    line.push(b'\r');
    let (c, bytes) = parse_hex_line(&line).unwrap();
    assert_eq!(c, 0x10FFFF);
    assert_eq!(bytes.len(), 32);
    assert_eq!(&bytes[0..4], &[0x00, 0xFF, 0x00, 0xFF]);
}

#[test]
fn parse_rejects_other_lines() {
    assert_eq!(parse_hex_line(b""), None);
    assert_eq!(parse_hex_line(b"# comment"), None);
    assert_eq!(parse_hex_line(b"041:0000000018242442427E424242420000"), None);
    assert_eq!(parse_hex_line(b"0000041:0000000018242442427E424242420000"), None);
    assert_eq!(parse_hex_line(b"0041:0000000018242442427e424242420000"), None);
    assert_eq!(parse_hex_line(b"0041:0000000018242442427E4242424200"), None);
    assert_eq!(parse_hex_line(b"0041:0000000018242442427E424242420000\r\r"), None);
    let mut long = b"0041:".to_vec();
    long.extend(b"00".repeat(24));
    assert_eq!(parse_hex_line(&long), None);
}
