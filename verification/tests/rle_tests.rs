use pyrite::error::PgsError;
use pyrite::rle::decode_rle;

#[test]
fn empty_input_decodes_to_nothing() {
    let data: Vec<u8> = vec![];
    assert_eq!(decode_rle(&data), Ok(vec![]));
}

#[test]
fn line_end_marker_emits_nothing() {
    let data = vec![0x00, 0x00];
    assert_eq!(decode_rle(&data), Ok(vec![]));
}

#[test]
fn short_run_implicit_color() {
    // bit 7 clear, bit 6 clear: length 3, implicit color 0
    let data = vec![0x00, 0x03];
    assert_eq!(decode_rle(&data), Ok(vec![0, 0, 0]));
}

#[test]
fn long_run_implicit_color() {
    // bit 7 clear, bit 6 set: length (1 << 8) | 2 = 258, implicit color 0
    let data = vec![0x00, 0x41, 0x02];
    let out = decode_rle(&data).unwrap();
    assert_eq!(out.len(), 258);
    assert!(out.iter().all(|&b| b == 0));
}

#[test]
fn short_run_explicit_color() {
    // bit 7 set, bit 6 clear: length 4, explicit color 7
    let data = vec![0x00, 0x84, 0x07];
    assert_eq!(decode_rle(&data), Ok(vec![7, 7, 7, 7]));
}

#[test]
fn long_run_explicit_color() {
    // bit 7 set, bit 6 set: length (1 << 8) | 2 = 258, explicit color 9
    let data = vec![0x00, 0xC1, 0x02, 0x09];
    let out = decode_rle(&data).unwrap();
    assert_eq!(out.len(), 258);
    assert!(out.iter().all(|&b| b == 9));
}

#[test]
fn nonzero_first_byte_emits_marker_pixel() {
    // a nonzero leading byte is one pixel of the fixed marker value 1
    let data = vec![0x05];
    assert_eq!(decode_rle(&data), Ok(vec![1]));
    let data = vec![0xFF, 0x02];
    assert_eq!(decode_rle(&data), Ok(vec![1, 1]));
}

#[test]
fn mixed_sequences_concatenate() {
    // marker pixel, line end, then an explicit run of two
    let data = vec![0x07, 0x00, 0x00, 0x00, 0x82, 0x03];
    assert_eq!(decode_rle(&data), Ok(vec![1, 3, 3]));
}

#[test]
fn truncated_control_sequences_fail() {
    assert_eq!(decode_rle(&[0x00]), Err(PgsError::TruncatedRle));
    // long-run bit set but the second length byte is missing
    assert_eq!(decode_rle(&[0x00, 0x41]), Err(PgsError::TruncatedRle));
    // explicit-color bit set but the color byte is missing
    assert_eq!(decode_rle(&[0x00, 0x84]), Err(PgsError::TruncatedRle));
    // both bits set, only one of the two extra bytes there
    assert_eq!(decode_rle(&[0x00, 0xC1, 0x02]), Err(PgsError::TruncatedRle));
}
