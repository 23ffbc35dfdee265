use vstd::prelude::*;

use crate::error::PgsError;

verus! {

/// The closed set of segment kinds a PGS stream may carry.
/// Any other type tag is a hard parse error, never a default case.
#[derive(Clone, Copy, Debug, PartialEq, Eq, Structural)]
pub enum SegmentType {
    /// Palette definition (tag 0x14).
    PDS,
    /// Object (bitmap) definition (tag 0x15).
    ODS,
    /// Presentation composition (tag 0x16).
    PCS,
    /// Window definition (tag 0x17).
    WDS,
    /// End of a display set (tag 0x80).
    END,
}

/// The fixed 13-byte header in front of every segment: a two-byte
/// magic, two 32-bit timestamps (90 kHz clock ticks), the type tag,
/// and the declared payload size in bytes.
#[derive(Clone, Copy, Debug, PartialEq, Eq, Structural)]
pub struct Header {
    /// Presentation timestamp.
    pub pts: u32,
    /// Decoding timestamp.
    pub dts: u32,
    /// Which payload follows.
    pub segment_type: SegmentType,
    /// Declared payload size in bytes, not counting the header itself.
    pub segment_size: u16,
}

/// A big-endian 16-bit value assembled from two bytes.
pub open spec fn spec_be_u16(b0: u8, b1: u8) -> u16 {
    ((b0 as u16) << 8) | (b1 as u16)
}

/// A big-endian 24-bit value assembled from three bytes, widened to 32 bits.
pub open spec fn spec_be_u24(b0: u8, b1: u8, b2: u8) -> u32 {
    ((b0 as u32) << 16) | ((b1 as u32) << 8) | (b2 as u32)
}

/// A big-endian 32-bit value assembled from four bytes.
pub open spec fn spec_be_u32(b0: u8, b1: u8, b2: u8, b3: u8) -> u32 {
    ((b0 as u32) << 24) | ((b1 as u32) << 16) | ((b2 as u32) << 8) | (b3 as u32)
}

/// Is `b` one of the five known segment-type tags?
pub open spec fn known_tag(b: u8) -> bool {
    b == 0x14 || b == 0x15 || b == 0x16 || b == 0x17 || b == 0x80
}

/// The segment type a known tag byte denotes.
pub open spec fn tag_to_type(b: u8) -> SegmentType {
    if b == 0x14 {
        SegmentType::PDS
    } else if b == 0x15 {
        SegmentType::ODS
    } else if b == 0x16 {
        SegmentType::PCS
    } else if b == 0x17 {
        SegmentType::WDS
    } else {
        SegmentType::END
    }
}

/// The tag byte that encodes a segment type.
pub open spec fn type_to_tag(t: SegmentType) -> u8 {
    match t {
        SegmentType::PDS => 0x14,
        SegmentType::ODS => 0x15,
        SegmentType::PCS => 0x16,
        SegmentType::WDS => 0x17,
        SegmentType::END => 0x80,
    }
}

/// There are at least 13 bytes at `pos`, enough for a header.
pub open spec fn header_fits(data: Seq<u8>, pos: int) -> bool {
    pos + 13 <= data.len()
}

/// The two magic bytes "PG" stand at `pos`.
pub open spec fn magic_ok(data: Seq<u8>, pos: int) -> bool {
    data[pos] == 0x50 && data[pos + 1] == 0x47
}

/// A well-formed header starts at `pos`: it fits, the magic matches,
/// and the type tag is one of the five known ones.
pub open spec fn header_valid(data: Seq<u8>, pos: int) -> bool {
    &&& header_fits(data, pos)
    &&& magic_ok(data, pos)
    &&& known_tag(data[pos + 10])
}

/// The header encoded at `pos`, assuming `header_valid` holds there.
pub open spec fn spec_header_at(data: Seq<u8>, pos: int) -> Header {
    Header {
        pts: spec_be_u32(data[pos + 2], data[pos + 3], data[pos + 4], data[pos + 5]),
        dts: spec_be_u32(data[pos + 6], data[pos + 7], data[pos + 8], data[pos + 9]),
        segment_type: tag_to_type(data[pos + 10]),
        segment_size: spec_be_u16(data[pos + 11], data[pos + 12]),
    }
}

/// The 13 bytes that encode a header: magic, timestamps, tag, size.
pub open spec fn spec_serialize_header(h: Header) -> Seq<u8> {
    seq![
        0x50u8,
        0x47u8,
        (h.pts >> 24) as u8,
        (h.pts >> 16) as u8,
        (h.pts >> 8) as u8,
        h.pts as u8,
        (h.dts >> 24) as u8,
        (h.dts >> 16) as u8,
        (h.dts >> 8) as u8,
        h.dts as u8,
        type_to_tag(h.segment_type),
        (h.segment_size >> 8) as u8,
        h.segment_size as u8,
    ]
}

/// Decode the fixed 13-byte segment header at `pos`.
///
/// Succeeds exactly on a well-formed header and consumes exactly 13
/// bytes. Too little input is `InsufficientData` (a streaming caller
/// may retry with more bytes); a bad magic or an unknown type tag is
/// `MalformedHeader`.
pub fn parse_header(data: &[u8], pos: usize) -> (r: Result<(Header, usize), PgsError>)
    requires
        pos <= data@.len(),
    ensures
        match r {
            Ok((h, end)) => {
                &&& header_valid(data@, pos as int)
                &&& h == spec_header_at(data@, pos as int)
                &&& end == pos + 13
            },
            Err(PgsError::InsufficientData) => data@.len() < pos + 13,
            Err(PgsError::MalformedHeader) => {
                &&& header_fits(data@, pos as int)
                &&& !(magic_ok(data@, pos as int) && known_tag(data@[pos as int + 10]))
            },
            Err(_) => false,
        },
{
    if data.len() - pos < 13 {
        return Err(PgsError::InsufficientData);
    }
    if data[pos] != 0x50 || data[pos + 1] != 0x47 {
        return Err(PgsError::MalformedHeader);
    }
    let tag = data[pos + 10];
    let segment_type = if tag == 0x14 {
        SegmentType::PDS
    } else if tag == 0x15 {
        SegmentType::ODS
    } else if tag == 0x16 {
        SegmentType::PCS
    } else if tag == 0x17 {
        SegmentType::WDS
    } else if tag == 0x80 {
        SegmentType::END
    } else {
        return Err(PgsError::MalformedHeader);
    };
    let pts = ((data[pos + 2] as u32) << 24) | ((data[pos + 3] as u32) << 16)
        | ((data[pos + 4] as u32) << 8) | (data[pos + 5] as u32);
    let dts = ((data[pos + 6] as u32) << 24) | ((data[pos + 7] as u32) << 16)
        | ((data[pos + 8] as u32) << 8) | (data[pos + 9] as u32);
    let segment_size = ((data[pos + 11] as u16) << 8) | (data[pos + 12] as u16);
    Ok((Header { pts, dts, segment_type, segment_size }, pos + 13))
}

/// Encode a header back into its 13-byte wire form.
pub fn serialize_header(h: &Header) -> (r: Vec<u8>)
    ensures
        r@ == spec_serialize_header(*h),
{
    let tag: u8 = match h.segment_type {
        SegmentType::PDS => 0x14,
        SegmentType::ODS => 0x15,
        SegmentType::PCS => 0x16,
        SegmentType::WDS => 0x17,
        SegmentType::END => 0x80,
    };
    let r: Vec<u8> = vec![
        0x50u8,
        0x47u8,
        (h.pts >> 24) as u8,
        (h.pts >> 16) as u8,
        (h.pts >> 8) as u8,
        h.pts as u8,
        (h.dts >> 24) as u8,
        (h.dts >> 16) as u8,
        (h.dts >> 8) as u8,
        h.dts as u8,
        tag,
        (h.segment_size >> 8) as u8,
        h.segment_size as u8,
    ];
    proof {
        assert(r@ =~= spec_serialize_header(*h));
    }
    r
}

/// Round trip: parsing a well-formed 13-byte header prefix and
/// serializing the result reproduces those 13 bytes exactly.
pub proof fn lemma_header_round_trip(data: Seq<u8>, pos: int)
    requires
        0 <= pos,
        header_valid(data, pos),
    ensures
        spec_serialize_header(spec_header_at(data, pos)) == data.subrange(pos, pos + 13),
{
    let h = spec_header_at(data, pos);
    let s = spec_serialize_header(h);
    let a2 = data[pos + 2];
    let a3 = data[pos + 3];
    let a4 = data[pos + 4];
    let a5 = data[pos + 5];
    assert((spec_be_u32(a2, a3, a4, a5) >> 24) as u8 == a2) by (bit_vector);
    assert((spec_be_u32(a2, a3, a4, a5) >> 16) as u8 == a3) by (bit_vector);
    assert((spec_be_u32(a2, a3, a4, a5) >> 8) as u8 == a4) by (bit_vector);
    assert(spec_be_u32(a2, a3, a4, a5) as u8 == a5) by (bit_vector);
    let a6 = data[pos + 6];
    let a7 = data[pos + 7];
    let a8 = data[pos + 8];
    let a9 = data[pos + 9];
    assert((spec_be_u32(a6, a7, a8, a9) >> 24) as u8 == a6) by (bit_vector);
    assert((spec_be_u32(a6, a7, a8, a9) >> 16) as u8 == a7) by (bit_vector);
    assert((spec_be_u32(a6, a7, a8, a9) >> 8) as u8 == a8) by (bit_vector);
    assert(spec_be_u32(a6, a7, a8, a9) as u8 == a9) by (bit_vector);
    let b0 = data[pos + 11];
    let b1 = data[pos + 12];
    assert((spec_be_u16(b0, b1) >> 8) as u8 == b0) by (bit_vector);
    assert(spec_be_u16(b0, b1) as u8 == b1) by (bit_vector);
    assert(type_to_tag(tag_to_type(data[pos + 10])) == data[pos + 10]);
    assert(s =~= data.subrange(pos, pos + 13));
}

} // verus!
