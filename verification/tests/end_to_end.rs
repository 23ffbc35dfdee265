use pyrite::color::PalleteEntry;
use pyrite::error::PgsError;
use pyrite::frame::try_take_frame;
use pyrite::segment::Segment;
use pyrite::segment::parse_segment;

fn header_bytes(tag: u8, size: u16) -> Vec<u8> {
    let mut v = vec![0x50, 0x47, 0x00, 0x01, 0x5F, 0x90, 0x00, 0x00, 0x00, 0x00, tag];
    v.push((size >> 8) as u8);
    v.push(size as u8);
    v
}

/// One minimal display set: a composition placing one object, a
/// window, a one-entry palette, a one-pixel bitmap, and the end.
fn minimal_stream() -> Vec<u8> {
    let mut data = Vec::new();
    // composition: eleven-byte prefix, one uncropped object
    data.extend(header_bytes(0x16, 19));
    data.extend(vec![
        0x07, 0x80, 0x04, 0x38, 0x10, 0x00, 0x01, 0x80, 0x00, 0x00, 0x01, // prefix
        0x00, 0x01, 0x00, 0x00, 0x00, 0x64, 0x00, 0x32, // object at (100, 50)
    ]);
    // window definition
    data.extend(header_bytes(0x17, 10));
    data.extend(vec![0x01, 0x00, 0x00, 0x64, 0x00, 0x32, 0x00, 0x01, 0x00, 0x01]);
    // palette definition with a single entry, id 1
    data.extend(header_bytes(0x14, 7));
    data.extend(vec![0x00, 0x00, 0x01, 0x80, 0x80, 0x80, 0xFF]);
    // object definition: one explicit-color pixel of palette index 1
    data.extend(header_bytes(0x15, 14));
    data.extend(vec![
        0x00, 0x01, 0x00, 0xC0, 0x00, 0x00, 0x07, 0x00, 0x01, 0x00, 0x01, // prefix, 1 x 1
        0x00, 0x81, 0x01, // run of length one, color 1
    ]);
    // end of the display set
    data.extend(header_bytes(0x80, 0));
    data
}

fn parse_all(data: &[u8]) -> Vec<Segment> {
    let mut segments = Vec::new();
    let mut pos: usize = 0;
    while pos < data.len() {
        let (segment, end) = parse_segment(data, pos).unwrap();
        segments.push(segment);
        pos = end;
    }
    segments
}

#[test]
fn minimal_stream_decodes_to_one_converted_pixel() {
    let data = minimal_stream();
    let mut segments = parse_all(&data);
    assert_eq!(segments.len(), 5);

    let frame = try_take_frame(&mut segments).unwrap();
    assert!(segments.is_empty());
    assert_eq!(frame.pts(), 90000);
    assert_eq!(frame.image_x(), Some(100));
    assert_eq!(frame.image_y(), Some(50));

    let img = frame.get_pixels().unwrap();
    assert_eq!((img.width, img.height), (1, 1));
    let entry = PalleteEntry { eid: 1, y: 0x80, cr: 0x80, cb: 0x80, alpha: 0xFF };
    assert_eq!(img.data, entry.to_rgba().to_vec());

    assert!(try_take_frame(&mut segments).is_none());
}

#[test]
fn malformed_magic_at_stream_start_is_reported() {
    let mut data = minimal_stream();
    data[0] = 0x58;
    data[1] = 0x59;
    assert_eq!(parse_segment(&data, 0), Err(PgsError::MalformedHeader));
}

#[test]
fn truncated_stream_reports_missing_bytes() {
    let data = minimal_stream();
    // cutting inside the last header leaves too little for a header
    let cut = data.len() - 5;
    assert_eq!(parse_segment(&data[..cut], cut - 8), Err(PgsError::InsufficientData));
    // cutting inside a payload truncates that segment
    assert_eq!(parse_segment(&data[..20], 0), Err(PgsError::TruncatedSegment));
}

#[test]
fn streaming_in_two_chunks_recovers() {
    let data = minimal_stream();
    let (first, second) = data.split_at(40);

    let mut buffer = first.to_vec();
    let mut segments = Vec::new();
    let mut pos: usize = 0;
    loop {
        match parse_segment(&buffer, pos) {
            Ok((segment, end)) => {
                segments.push(segment);
                pos = end;
            },
            Err(_) => break,
        }
    }
    // nothing complete can be assembled yet
    assert!(try_take_frame(&mut segments).is_none());

    buffer.extend_from_slice(second);
    loop {
        match parse_segment(&buffer, pos) {
            Ok((segment, end)) => {
                segments.push(segment);
                pos = end;
            },
            Err(_) => break,
        }
    }
    assert_eq!(pos, buffer.len());
    let frame = try_take_frame(&mut segments).unwrap();
    assert_eq!(frame.pts(), 90000);
    assert!(segments.is_empty());
}
