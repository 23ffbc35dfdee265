use vstd::prelude::*;

use crate::color::PalleteEntry;
use crate::error::PgsError;
use crate::header::Header;
use crate::header::SegmentType;
use crate::header::header_valid;
use crate::header::spec_be_u16;
use crate::header::spec_be_u24;
use crate::header::spec_header_at;
use crate::header::parse_header;

verus! {

/// The crop rectangle of a composition object. The four fields are
/// present as a group or absent as a group, never partially.
#[derive(Clone, Copy, Debug, PartialEq, Eq, Structural)]
pub struct CropRect {
    /// Horizontal crop origin.
    pub x: u16,
    /// Vertical crop origin.
    pub y: u16,
    /// Crop width.
    pub width: u16,
    /// Crop height.
    pub height: u16,
}

/// One object placement within a composition.
#[derive(Clone, Copy, Debug, PartialEq, Eq)]
pub struct CompObj {
    /// Object id.
    pub id: u16,
    /// Window id.
    pub wid: u8,
    /// Whether the object is cropped; exactly then `crop` is present.
    pub cropped_flag: bool,
    /// On-screen horizontal position.
    pub x: u16,
    /// On-screen vertical position.
    pub y: u16,
    /// The crop rectangle, present exactly when `cropped_flag` is set.
    pub crop: Option<CropRect>,
}

/// A presentation composition: screen geometry, composition state,
/// and the placed objects.
#[derive(Clone, Debug, PartialEq)]
pub struct PCSegment {
    /// The segment's header.
    pub header: Header,
    /// Screen width.
    pub width: u16,
    /// Screen height.
    pub height: u16,
    /// Frame-rate code.
    pub fps: u8,
    /// Composition number.
    pub composition_n: u16,
    /// Composition state code.
    pub composition_s: u8,
    /// Whether this composition only updates the palette.
    pub pallete_update: bool,
    /// The palette in use.
    pub pallete_id: u8,
    /// Declared number of composition objects.
    pub num_objects: u8,
    /// The composition objects, in stream order.
    pub objects: Vec<CompObj>,
}

/// A window definition: one window's position and size. The stream
/// declares a window count, but only the first window is captured.
#[derive(Clone, Copy, Debug, PartialEq, Eq, Structural)]
pub struct WDSegment {
    /// The segment's header.
    pub header: Header,
    /// Declared number of windows.
    pub n_windows: u8,
    /// Window id.
    pub wid: u8,
    /// Horizontal window position.
    pub x_pos: u16,
    /// Vertical window position.
    pub y_pos: u16,
    /// Window width.
    pub width: u16,
    /// Window height.
    pub height: u16,
}

/// A palette definition: an id, a version, and the entries that fit
/// in the declared payload.
#[derive(Clone, Debug, PartialEq)]
pub struct PDSegment {
    /// The segment's header.
    pub header: Header,
    /// Palette id.
    pub pid: u8,
    /// Palette version.
    pub version: u8,
    /// The entries, in stream order.
    pub palletes: Vec<PalleteEntry>,
}

/// An object definition: bitmap geometry and the compressed bitmap
/// payload.
#[derive(Clone, Debug, PartialEq)]
pub struct ODSegment {
    /// The segment's header.
    pub header: Header,
    /// Object id.
    pub id: u16,
    /// Object version.
    pub version: u8,
    /// Sequence flag (first/last fragment marker).
    pub seq_flag: u8,
    /// Declared object data length; 24 bits on the wire, widened here.
    /// Counts the four width/height bytes plus the compressed payload.
    pub data_len: u32,
    /// Bitmap width in pixels.
    pub width: u16,
    /// Bitmap height in pixels.
    pub height: u16,
    /// The compressed bitmap payload, `data_len - 4` bytes.
    pub object_data: Vec<u8>,
}

/// The end of one display set; carries nothing but its header.
#[derive(Clone, Copy, Debug, PartialEq, Eq, Structural)]
pub struct ENDSegment {
    /// The segment's header.
    pub header: Header,
}

/// One parsed segment: the closed union over the five segment kinds.
#[derive(Clone, Debug, PartialEq)]
pub enum Segment {
    /// A presentation composition.
    PCS(PCSegment),
    /// A window definition.
    WDS(WDSegment),
    /// A palette definition.
    PDS(PDSegment),
    /// An object definition.
    ODS(ODSegment),
    /// The end of a display set.
    END(ENDSegment),
}

/// The composition object encoded at `pos`, with the position just
/// past it; `None` when the bytes run out. A set 0x40 bit in the
/// fourth byte means a crop rectangle follows the fixed eight bytes.
pub open spec fn spec_parse_compobj(data: Seq<u8>, pos: int) -> Option<(CompObj, int)> {
    if pos + 8 > data.len() {
        None
    } else {
        let cropped = (data[pos + 3] & 0x40) != 0;
        if !cropped {
            Some(
                (
                    CompObj {
                        id: spec_be_u16(data[pos], data[pos + 1]),
                        wid: data[pos + 2],
                        cropped_flag: false,
                        x: spec_be_u16(data[pos + 4], data[pos + 5]),
                        y: spec_be_u16(data[pos + 6], data[pos + 7]),
                        crop: None,
                    },
                    pos + 8,
                ),
            )
        } else if pos + 16 > data.len() {
            None
        } else {
            Some(
                (
                    CompObj {
                        id: spec_be_u16(data[pos], data[pos + 1]),
                        wid: data[pos + 2],
                        cropped_flag: true,
                        x: spec_be_u16(data[pos + 4], data[pos + 5]),
                        y: spec_be_u16(data[pos + 6], data[pos + 7]),
                        crop: Some(
                            CropRect {
                                x: spec_be_u16(data[pos + 8], data[pos + 9]),
                                y: spec_be_u16(data[pos + 10], data[pos + 11]),
                                width: spec_be_u16(data[pos + 12], data[pos + 13]),
                                height: spec_be_u16(data[pos + 14], data[pos + 15]),
                            },
                        ),
                    },
                    pos + 16,
                ),
            )
        }
    }
}

/// `n` consecutive composition objects starting at `pos`, with the
/// position just past the last; `None` when any of them runs out of
/// bytes.
pub open spec fn spec_parse_compobjs(data: Seq<u8>, pos: int, n: nat) -> Option<
    (Seq<CompObj>, int),
>
    decreases n,
{
    if n == 0 {
        Some((Seq::empty(), pos))
    } else {
        match spec_parse_compobj(data, pos) {
            None => None,
            Some((obj, mid)) => match spec_parse_compobjs(data, mid, (n - 1) as nat) {
                None => None,
                Some((rest, end)) => Some((seq![obj] + rest, end)),
            },
        }
    }
}

/// Decode one composition object at `pos`: eight fixed bytes, plus
/// eight crop bytes when the cropped bit is set. Fails with
/// `TruncatedSegment` exactly when the input is too short.
pub fn parse_compobj(data: &[u8], pos: usize) -> (r: Result<(CompObj, usize), PgsError>)
    requires
        pos <= data@.len(),
    ensures
        match r {
            Ok((obj, end)) => spec_parse_compobj(data@, pos as int) == Some((obj, end as int)),
            Err(e) => {
                &&& spec_parse_compobj(data@, pos as int) is None
                &&& e == PgsError::TruncatedSegment
            },
        },
{
    if data.len() - pos < 8 {
        return Err(PgsError::TruncatedSegment);
    }
    let id = ((data[pos] as u16) << 8) | (data[pos + 1] as u16);
    let wid = data[pos + 2];
    let cropped_flag = (data[pos + 3] & 0x40) != 0;
    let x = ((data[pos + 4] as u16) << 8) | (data[pos + 5] as u16);
    let y = ((data[pos + 6] as u16) << 8) | (data[pos + 7] as u16);
    if !cropped_flag {
        Ok((CompObj { id, wid, cropped_flag, x, y, crop: None }, pos + 8))
    } else if data.len() - pos < 16 {
        Err(PgsError::TruncatedSegment)
    } else {
        let crop = CropRect {
            x: ((data[pos + 8] as u16) << 8) | (data[pos + 9] as u16),
            y: ((data[pos + 10] as u16) << 8) | (data[pos + 11] as u16),
            width: ((data[pos + 12] as u16) << 8) | (data[pos + 13] as u16),
            height: ((data[pos + 14] as u16) << 8) | (data[pos + 15] as u16),
        };
        Ok((CompObj { id, wid, cropped_flag, x, y, crop: Some(crop) }, pos + 16))
    }
}

/// The composition payload at `pos` parses: the eleven-byte prefix
/// fits and every declared composition object fits behind it.
pub open spec fn pcs_ok(data: Seq<u8>, pos: int) -> bool {
    &&& pos + 11 <= data.len()
    &&& spec_parse_compobjs(data, pos + 11, data[pos + 10] as nat) is Some
}

/// `seg` is exactly the composition payload encoded at `pos` under
/// header `h`, and `end` is the position just past it.
pub open spec fn pcs_matches(data: Seq<u8>, pos: int, h: Header, seg: PCSegment, end: int) -> bool {
    &&& pos + 11 <= data.len()
    &&& seg.header == h
    &&& seg.width == spec_be_u16(data[pos], data[pos + 1])
    &&& seg.height == spec_be_u16(data[pos + 2], data[pos + 3])
    &&& seg.fps == data[pos + 4]
    &&& seg.composition_n == spec_be_u16(data[pos + 5], data[pos + 6])
    &&& seg.composition_s == data[pos + 7]
    &&& seg.pallete_update == ((data[pos + 8] & 0x80) != 0)
    &&& seg.pallete_id == data[pos + 9]
    &&& seg.num_objects == data[pos + 10]
    &&& spec_parse_compobjs(data, pos + 11, data[pos + 10] as nat) == Some((seg.objects@, end))
}

/// Decode a composition payload: an eleven-byte prefix, then exactly
/// as many composition objects as the prefix declares. Fails with
/// `TruncatedSegment` exactly when the input is too short.
#[verifier::loop_isolation(false)]
pub fn parse_pcs(data: &[u8], pos: usize, header: Header) -> (r: Result<
    (PCSegment, usize),
    PgsError,
>)
    requires
        pos <= data@.len(),
    ensures
        match r {
            Ok((seg, end)) => pcs_matches(data@, pos as int, header, seg, end as int) && pos + 11
                <= end <= data@.len(),
            Err(e) => !pcs_ok(data@, pos as int) && e == PgsError::TruncatedSegment,
        },
{
    if data.len() - pos < 11 {
        return Err(PgsError::TruncatedSegment);
    }
    let width = ((data[pos] as u16) << 8) | (data[pos + 1] as u16);
    let height = ((data[pos + 2] as u16) << 8) | (data[pos + 3] as u16);
    let fps = data[pos + 4];
    let composition_n = ((data[pos + 5] as u16) << 8) | (data[pos + 6] as u16);
    let composition_s = data[pos + 7];
    let pallete_update = (data[pos + 8] & 0x80) != 0;
    let pallete_id = data[pos + 9];
    let num_objects = data[pos + 10];

    let mut objects: Vec<CompObj> = Vec::new();
    let mut cur: usize = pos + 11;
    let mut i: u8 = 0;
    while i < num_objects
        invariant
            i <= num_objects,
            pos + 11 <= cur <= data@.len(),
            spec_parse_compobjs(data@, pos + 11, num_objects as nat) == (
            match spec_parse_compobjs(data@, cur as int, (num_objects - i) as nat) {
                Some((rest, end)) => Some((objects@ + rest, end)),
                None => None::<(Seq<CompObj>, int)>,
            }),
        decreases num_objects - i,
    {
        let ghost old_objects = objects@;
        match parse_compobj(data, cur) {
            Ok((obj, next)) => {
                objects.push(obj);
                proof {
                    match spec_parse_compobjs(data@, next as int, (num_objects - i - 1) as nat) {
                        Some((rest, end)) => {
                            assert(old_objects + (seq![obj] + rest) =~= objects@ + rest);
                        },
                        None => {},
                    }
                }
                cur = next;
                i = i + 1;
            },
            Err(e) => {
                return Err(e);
            },
        }
    }
    proof {
        match spec_parse_compobjs(data@, pos + 11, num_objects as nat) {
            Some((all, end)) => {
                assert(objects@ + Seq::<CompObj>::empty() =~= objects@);
            },
            None => {},
        }
    }
    Ok(
        (
            PCSegment {
                header,
                width,
                height,
                fps,
                composition_n,
                composition_s,
                pallete_update,
                pallete_id,
                num_objects,
                objects,
            },
            cur,
        ),
    )
}

/// The window payload at `pos` parses: its ten fixed bytes fit.
pub open spec fn wds_ok(data: Seq<u8>, pos: int) -> bool {
    pos + 10 <= data.len()
}

/// `seg` is exactly the window payload encoded at `pos` under `h`.
/// The payload is ten fixed bytes: a window count, then one window
/// record.
pub open spec fn wds_matches(data: Seq<u8>, pos: int, h: Header, seg: WDSegment) -> bool {
    &&& pos + 10 <= data.len()
    &&& seg == WDSegment {
        header: h,
        n_windows: data[pos],
        wid: data[pos + 1],
        x_pos: spec_be_u16(data[pos + 2], data[pos + 3]),
        y_pos: spec_be_u16(data[pos + 4], data[pos + 5]),
        width: spec_be_u16(data[pos + 6], data[pos + 7]),
        height: spec_be_u16(data[pos + 8], data[pos + 9]),
    }
}

/// Decode a window-definition payload: ten fixed bytes. Fails with
/// `TruncatedSegment` exactly when the input is too short.
pub fn parse_wdseg(data: &[u8], pos: usize, header: Header) -> (r: Result<
    (WDSegment, usize),
    PgsError,
>)
    requires
        pos <= data@.len(),
    ensures
        match r {
            Ok((seg, end)) => wds_matches(data@, pos as int, header, seg) && end == pos + 10,
            Err(e) => !wds_ok(data@, pos as int) && e == PgsError::TruncatedSegment,
        },
{
    if data.len() - pos < 10 {
        return Err(PgsError::TruncatedSegment);
    }
    Ok(
        (
            WDSegment {
                header,
                n_windows: data[pos],
                wid: data[pos + 1],
                x_pos: ((data[pos + 2] as u16) << 8) | (data[pos + 3] as u16),
                y_pos: ((data[pos + 4] as u16) << 8) | (data[pos + 5] as u16),
                width: ((data[pos + 6] as u16) << 8) | (data[pos + 7] as u16),
                height: ((data[pos + 8] as u16) << 8) | (data[pos + 9] as u16),
            },
            pos + 10,
        ),
    )
}

/// The palette entry encoded at `pos`: five bytes, id then channels.
pub open spec fn spec_pallete_at(data: Seq<u8>, pos: int) -> PalleteEntry {
    PalleteEntry {
        eid: data[pos],
        y: data[pos + 1],
        cr: data[pos + 2],
        cb: data[pos + 3],
        alpha: data[pos + 4],
    }
}

/// Decode one five-byte palette entry. Fails with `TruncatedSegment`
/// exactly when fewer than five bytes remain.
pub fn parse_pallete(data: &[u8], pos: usize) -> (r: Result<(PalleteEntry, usize), PgsError>)
    requires
        pos <= data@.len(),
    ensures
        match r {
            Ok((entry, end)) => {
                &&& pos + 5 <= data@.len()
                &&& entry == spec_pallete_at(data@, pos as int)
                &&& end == pos + 5
            },
            Err(e) => {
                &&& pos + 5 > data@.len()
                &&& e == PgsError::TruncatedSegment
            },
        },
{
    if data.len() - pos < 5 {
        return Err(PgsError::TruncatedSegment);
    }
    Ok(
        (
            PalleteEntry {
                eid: data[pos],
                y: data[pos + 1],
                cr: data[pos + 2],
                cb: data[pos + 3],
                alpha: data[pos + 4],
            },
            pos + 5,
        ),
    )
}

/// The palette payload at `pos` under `h` parses: the declared size
/// covers its own two-byte prefix and fits in the input.
pub open spec fn pds_ok(data: Seq<u8>, pos: int, h: Header) -> bool {
    &&& h.segment_size >= 2
    &&& pos + h.segment_size <= data.len()
}

/// The entries carried by a palette payload at `pos` whose byte budget
/// is `h.segment_size - 2`: five-byte records until fewer than five
/// bytes of the budget remain; a short tail is skipped, not an error.
pub open spec fn spec_pds_entries(data: Seq<u8>, pos: int, h: Header) -> Seq<PalleteEntry> {
    Seq::new(
        (((h.segment_size - 2) as int) / 5) as nat,
        |k: int| spec_pallete_at(data, pos + 2 + 5 * k),
    )
}

/// `seg` is exactly the palette payload encoded at `pos` under `h`,
/// and `end` is the position just past the declared byte budget.
pub open spec fn pds_matches(data: Seq<u8>, pos: int, h: Header, seg: PDSegment, end: int) -> bool {
    &&& pds_ok(data, pos, h)
    &&& seg.header == h
    &&& seg.pid == data[pos]
    &&& seg.version == data[pos + 1]
    &&& seg.palletes@ == spec_pds_entries(data, pos, h)
    &&& end == pos + h.segment_size
}

/// Decode a palette payload: a two-byte prefix, then five-byte entries
/// until the declared byte budget (`segment_size - 2`) is exhausted; a
/// leftover tail shorter than one entry is skipped by design. Fails
/// with `TruncatedSegment` exactly when the declared size is shorter
/// than its own prefix or overruns the input.
#[verifier::loop_isolation(false)]
pub fn parse_pds(data: &[u8], pos: usize, header: Header) -> (r: Result<
    (PDSegment, usize),
    PgsError,
>)
    requires
        pos <= data@.len(),
    ensures
        match r {
            Ok((seg, end)) => pds_matches(data@, pos as int, header, seg, end as int) && end
                <= data@.len(),
            Err(e) => {
                &&& !pds_ok(data@, pos as int, header)
                &&& e == PgsError::TruncatedSegment
            },
        },
{
    if header.segment_size < 2 {
        return Err(PgsError::TruncatedSegment);
    }
    let size = header.segment_size as usize;
    if data.len() - pos < size {
        return Err(PgsError::TruncatedSegment);
    }
    let pid = data[pos];
    let version = data[pos + 1];
    let n = (size - 2) / 5;
    proof {
        assert(5 * ((size - 2) as int / 5) <= size - 2) by (nonlinear_arith);
    }
    let mut palletes: Vec<PalleteEntry> = Vec::new();
    let mut k: usize = 0;
    while k < n
        invariant
            k <= n,
            palletes@ == Seq::new(k as nat, |j: int| spec_pallete_at(data@, pos + 2 + 5 * j)),
        decreases n - k,
    {
        let base = pos + 2 + 5 * k;
        match parse_pallete(data, base) {
            Ok((entry, _next)) => {
                palletes.push(entry);
            },
            Err(_) => {
                // the whole budget is in range, so every entry is
                proof {
                    assert(base + 5 <= pos + size);
                    assert(false);
                }
            },
        }
        k = k + 1;
        proof {
            assert(palletes@ =~= Seq::new(k as nat, |j: int| spec_pallete_at(data@, pos + 2 + 5 * j)));
        }
    }
    Ok((PDSegment { header, pid, version, palletes }, pos + size))
}

/// The declared object-data length of the object payload at `pos`:
/// a 24-bit big-endian field counting the four geometry bytes plus the
/// compressed payload.
pub open spec fn spec_ods_data_len(data: Seq<u8>, pos: int) -> u32 {
    spec_be_u24(data[pos + 4], data[pos + 5], data[pos + 6])
}

/// The object payload at `pos` parses: the eleven-byte prefix fits,
/// the declared length covers its four geometry bytes, and the
/// compressed payload fits in the input.
pub open spec fn ods_ok(data: Seq<u8>, pos: int) -> bool {
    &&& pos + 11 <= data.len()
    &&& spec_ods_data_len(data, pos) >= 4
    &&& pos + 11 + (spec_ods_data_len(data, pos) - 4) <= data.len()
}

/// `seg` is exactly the object payload encoded at `pos` under `h`,
/// and `end` is the position just past the compressed payload.
pub open spec fn ods_matches(data: Seq<u8>, pos: int, h: Header, seg: ODSegment, end: int) -> bool {
    &&& ods_ok(data, pos)
    &&& seg.header == h
    &&& seg.id == spec_be_u16(data[pos], data[pos + 1])
    &&& seg.version == data[pos + 2]
    &&& seg.seq_flag == data[pos + 3]
    &&& seg.data_len == spec_ods_data_len(data, pos)
    &&& seg.width == spec_be_u16(data[pos + 7], data[pos + 8])
    &&& seg.height == spec_be_u16(data[pos + 9], data[pos + 10])
    &&& seg.object_data@ == data.subrange(pos + 11, pos + 11 + (seg.data_len - 4))
    &&& end == pos + 11 + (seg.data_len - 4)
}

/// Decode an object-definition payload: an eleven-byte prefix with a
/// 24-bit length field, then `data_len - 4` bytes of compressed
/// bitmap. Fails with `TruncatedSegment` exactly when the input is too
/// short or the declared length is below the four bytes it must cover.
#[verifier::loop_isolation(false)]
pub fn parse_ods(data: &[u8], pos: usize, header: Header) -> (r: Result<
    (ODSegment, usize),
    PgsError,
>)
    requires
        pos <= data@.len(),
    ensures
        match r {
            Ok((seg, end)) => ods_matches(data@, pos as int, header, seg, end as int) && end
                <= data@.len(),
            Err(e) => !ods_ok(data@, pos as int) && e == PgsError::TruncatedSegment,
        },
{
    if data.len() - pos < 11 {
        return Err(PgsError::TruncatedSegment);
    }
    let id = ((data[pos] as u16) << 8) | (data[pos + 1] as u16);
    let version = data[pos + 2];
    let seq_flag = data[pos + 3];
    let data_len: u32 = ((data[pos + 4] as u32) << 16) | ((data[pos + 5] as u32) << 8) | (
    data[pos + 6] as u32);
    let width = ((data[pos + 7] as u16) << 8) | (data[pos + 8] as u16);
    let height = ((data[pos + 9] as u16) << 8) | (data[pos + 10] as u16);
    if data_len < 4 {
        return Err(PgsError::TruncatedSegment);
    }
    let payload_len = (data_len - 4) as usize;
    if data.len() - (pos + 11) < payload_len {
        return Err(PgsError::TruncatedSegment);
    }
    let start = pos + 11;
    let mut object_data: Vec<u8> = Vec::new();
    let mut j: usize = 0;
    while j < payload_len
        invariant
            j <= payload_len,
            object_data@ == data@.subrange(start as int, start + j),
        decreases payload_len - j,
    {
        object_data.push(data[start + j]);
        j = j + 1;
        proof {
            assert(object_data@ =~= data@.subrange(start as int, start + j));
        }
    }
    Ok(
        (
            ODSegment { header, id, version, seq_flag, data_len, width, height, object_data },
            start + payload_len,
        ),
    )
}

/// The whole segment at `pos` parses: a well-formed header whose
/// payload parses and consumes exactly the declared size.
pub open spec fn segment_parses(data: Seq<u8>, pos: int) -> bool {
    &&& header_valid(data, pos)
    &&& {
        let h = spec_header_at(data, pos);
        let p = pos + 13;
        match h.segment_type {
            SegmentType::PCS => {
                &&& pcs_ok(data, p)
                &&& (match spec_parse_compobjs(data, p + 11, data[p + 10] as nat) {
                    Some((objs, end)) => end == p + h.segment_size,
                    None => false,
                })
            },
            SegmentType::WDS => wds_ok(data, p) && h.segment_size == 10,
            SegmentType::PDS => pds_ok(data, p, h),
            SegmentType::ODS => ods_ok(data, p) && 11 + (spec_ods_data_len(data, p) - 4)
                == h.segment_size,
            SegmentType::END => h.segment_size == 0,
        }
    }
}

/// `seg` is exactly the segment encoded at `pos`, and `end` is the
/// position just past it: thirteen header bytes plus exactly the
/// declared payload size.
pub open spec fn segment_matches(data: Seq<u8>, pos: int, seg: Segment, end: int) -> bool {
    &&& header_valid(data, pos)
    &&& {
        let h = spec_header_at(data, pos);
        let p = pos + 13;
        &&& end == p + h.segment_size
        &&& match seg {
            Segment::PCS(s) => h.segment_type == SegmentType::PCS && pcs_matches(
                data,
                p,
                h,
                s,
                end,
            ),
            Segment::WDS(s) => h.segment_type == SegmentType::WDS && wds_matches(data, p, h, s)
                && end == p + 10,
            Segment::PDS(s) => h.segment_type == SegmentType::PDS && pds_matches(
                data,
                p,
                h,
                s,
                end,
            ),
            Segment::ODS(s) => h.segment_type == SegmentType::ODS && ods_matches(
                data,
                p,
                h,
                s,
                end,
            ),
            Segment::END(s) => h.segment_type == SegmentType::END && s.header == h && end == p,
        }
    }
}

/// The error that decoding the segment at `pos` yields when it fails:
/// too little input for a header is recoverable `InsufficientData`; a
/// bad magic or unknown tag is `MalformedHeader`; everything else is a
/// payload inconsistent with the input or with its declared size,
/// `TruncatedSegment`.
pub open spec fn spec_segment_error(data: Seq<u8>, pos: int) -> PgsError {
    if data.len() < pos + 13 {
        PgsError::InsufficientData
    } else if !header_valid(data, pos) {
        PgsError::MalformedHeader
    } else {
        PgsError::TruncatedSegment
    }
}

/// A stream that does not open with the two magic bytes "PG" never
/// parses, and is classified as a malformed header, for every such
/// input long enough to hold a header at all. (A shorter input is
/// classified as recoverable `InsufficientData` instead, so a
/// streaming caller first gathers enough bytes to judge the magic.)
pub proof fn lemma_malformed_magic_rejected(data: Seq<u8>)
    requires
        data.len() >= 13,
        !(data[0] == 0x50 && data[1] == 0x47),
    ensures
        !segment_parses(data, 0),
        spec_segment_error(data, 0) == PgsError::MalformedHeader,
{
}

/// Decode one whole segment at `pos`: a header, then the payload the
/// header's tag selects. Succeeds exactly when the segment parses and
/// its payload consumes exactly the header's declared size; any
/// mismatch between the declared and consumed size is a parse failure,
/// not silently tolerated.
pub fn parse_segment(data: &[u8], pos: usize) -> (r: Result<(Segment, usize), PgsError>)
    requires
        pos <= data@.len(),
    ensures
        match r {
            Ok((seg, end)) => {
                &&& segment_matches(data@, pos as int, seg, end as int)
                &&& pos < end <= data@.len()
            },
            Err(e) => {
                &&& !segment_parses(data@, pos as int)
                &&& e == spec_segment_error(data@, pos as int)
            },
        },
{
    let (header, p) = match parse_header(data, pos) {
        Ok(v) => v,
        Err(e) => {
            return Err(e);
        },
    };
    let (seg, end) = match header.segment_type {
        SegmentType::PCS => match parse_pcs(data, p, header) {
            Ok((s, e)) => (Segment::PCS(s), e),
            Err(e) => {
                return Err(e);
            },
        },
        SegmentType::WDS => match parse_wdseg(data, p, header) {
            Ok((s, e)) => (Segment::WDS(s), e),
            Err(e) => {
                return Err(e);
            },
        },
        SegmentType::PDS => match parse_pds(data, p, header) {
            Ok((s, e)) => (Segment::PDS(s), e),
            Err(e) => {
                return Err(e);
            },
        },
        SegmentType::ODS => match parse_ods(data, p, header) {
            Ok((s, e)) => (Segment::ODS(s), e),
            Err(e) => {
                return Err(e);
            },
        },
        SegmentType::END => (Segment::END(ENDSegment { header }), p),
    };
    if end - p != header.segment_size as usize {
        return Err(PgsError::TruncatedSegment);
    }
    Ok((seg, end))
}

} // verus!
