use vstd::prelude::*;

use crate::color::PalleteEntry;
use crate::color::spec_to_rgba;
use crate::header::SegmentType;
use crate::rle::decode_rle;
use crate::rle::spec_decode_rle;
use crate::segment::ENDSegment;
use crate::segment::ODSegment;
use crate::segment::PCSegment;
use crate::segment::PDSegment;
use crate::segment::Segment;
use crate::segment::WDSegment;

verus! {

/// One assembled display set: exactly one composition and one window
/// definition, at most one palette and one object definition, and the
/// end segment that closed the set. Immutable once assembled.
#[derive(Clone, Debug, PartialEq)]
pub struct Frame {
    /// The presentation composition.
    pub pcs: PCSegment,
    /// The window definition.
    pub wds: WDSegment,
    /// The palette definition, absent when the set redefines none.
    pub pds: Option<PDSegment>,
    /// The object definition, absent when the set redefines none.
    pub ods: Option<ODSegment>,
    /// The end segment that closed the set.
    pub end: ENDSegment,
}

/// An RGBA raster image: `4 * width * height` bytes in row-major
/// order, four bytes per pixel.
#[derive(Clone, Debug, PartialEq)]
pub struct Raster {
    /// Width in pixels.
    pub width: u16,
    /// Height in pixels.
    pub height: u16,
    /// The pixel bytes, red-green-blue-alpha per pixel, row-major.
    pub data: Vec<u8>,
}

/// The kind of a segment.
pub open spec fn seg_kind(s: Segment) -> SegmentType {
    match s {
        Segment::PCS(_) => SegmentType::PCS,
        Segment::WDS(_) => SegmentType::WDS,
        Segment::PDS(_) => SegmentType::PDS,
        Segment::ODS(_) => SegmentType::ODS,
        Segment::END(_) => SegmentType::END,
    }
}

/// The kind of a segment, at run time.
pub fn segment_kind(s: &Segment) -> (t: SegmentType)
    ensures
        t == seg_kind(*s),
{
    match s {
        Segment::PCS(_) => SegmentType::PCS,
        Segment::WDS(_) => SegmentType::WDS,
        Segment::PDS(_) => SegmentType::PDS,
        Segment::ODS(_) => SegmentType::ODS,
        Segment::END(_) => SegmentType::END,
    }
}

/// Does the queue hold a segment of kind `k`?
pub open spec fn has_kind(q: Seq<Segment>, k: SegmentType) -> bool {
    exists|i: int| 0 <= i < q.len() && #[trigger] seg_kind(q[i]) == k
}

/// The index of the first segment of kind `k`; meaningful only when
/// `has_kind(q, k)` holds.
pub open spec fn first_kind(q: Seq<Segment>, k: SegmentType) -> int
    decreases q.len(),
{
    if q.len() == 0 {
        0
    } else if seg_kind(q[0]) == k {
        0
    } else {
        1 + first_kind(q.drop_first(), k)
    }
}

/// `first_kind` points at a segment of its kind, and nothing of that
/// kind stands before it.
pub proof fn lemma_first_kind(q: Seq<Segment>, k: SegmentType)
    requires
        has_kind(q, k),
    ensures
        0 <= first_kind(q, k) < q.len(),
        seg_kind(q[first_kind(q, k)]) == k,
        forall|j: int| 0 <= j < first_kind(q, k) ==> seg_kind(q[j]) != k,
    decreases q.len(),
{
    if q.len() == 0 {
    } else if seg_kind(q[0]) == k {
    } else {
        let qt = q.drop_first();
        let i = choose|i: int| 0 <= i < q.len() && #[trigger] seg_kind(q[i]) == k;
        assert(qt[i - 1] == q[i]);
        lemma_first_kind(qt, k);
        assert(q[first_kind(q, k)] == qt[first_kind(qt, k)]);
        assert forall|j: int| 0 <= j < first_kind(q, k) implies seg_kind(q[j]) != k by {
            if j > 0 {
                assert(q[j] == qt[j - 1]);
            }
        }
    }
}

/// Removing a segment of another kind never removes the last segment
/// of kind `k`.
pub proof fn lemma_remove_keeps_kind(q: Seq<Segment>, i: int, k: SegmentType)
    requires
        0 <= i < q.len(),
        seg_kind(q[i]) != k,
        has_kind(q, k),
    ensures
        has_kind(q.remove(i), k),
{
    let j = choose|j: int| 0 <= j < q.len() && #[trigger] seg_kind(q[j]) == k;
    if j < i {
        assert(q.remove(i)[j] == q[j]);
    } else {
        assert(q.remove(i)[j - 1] == q[j]);
    }
}

/// Is any segment of kind `kind` in the queue?
pub fn contains_kind(segments: &Vec<Segment>, kind: SegmentType) -> (r: bool)
    ensures
        r == has_kind(segments@, kind),
{
    let mut i: usize = 0;
    while i < segments.len()
        invariant
            i <= segments@.len(),
            forall|j: int| 0 <= j < i ==> seg_kind(segments@[j]) != kind,
        decreases segments@.len() - i,
    {
        if segment_kind(&segments[i]) == kind {
            return true;
        }
        i = i + 1;
    }
    false
}

/// Remove and hand back the first segment of kind `kind`, or leave the
/// queue unchanged when none is there.
fn take_first(segments: &mut Vec<Segment>, kind: SegmentType) -> (r: Option<Segment>)
    ensures
        match r {
            Some(seg) => {
                &&& has_kind(old(segments)@, kind)
                &&& seg == old(segments)@[first_kind(old(segments)@, kind)]
                &&& seg_kind(seg) == kind
                &&& final(segments)@ == old(segments)@.remove(first_kind(old(segments)@, kind))
            },
            None => {
                &&& !has_kind(old(segments)@, kind)
                &&& final(segments)@ == old(segments)@
            },
        },
{
    let mut i: usize = 0;
    while i < segments.len()
        invariant
            i <= segments@.len(),
            segments@ == old(segments)@,
            forall|j: int| 0 <= j < i ==> seg_kind(segments@[j]) != kind,
        decreases segments@.len() - i,
    {
        if segment_kind(&segments[i]) == kind {
            proof {
                lemma_first_kind(segments@, kind);
            }
            let seg = segments.remove(i);
            return Some(seg);
        }
        i = i + 1;
    }
    None
}

/// The composition inside a segment known to be one.
pub open spec fn as_pcs(s: Segment) -> PCSegment {
    match s {
        Segment::PCS(x) => x,
        _ => vstd::pervasive::arbitrary(),
    }
}

/// The window definition inside a segment known to be one.
pub open spec fn as_wds(s: Segment) -> WDSegment {
    match s {
        Segment::WDS(x) => x,
        _ => vstd::pervasive::arbitrary(),
    }
}

/// The palette definition inside a segment known to be one.
pub open spec fn as_pds(s: Segment) -> PDSegment {
    match s {
        Segment::PDS(x) => x,
        _ => vstd::pervasive::arbitrary(),
    }
}

/// The object definition inside a segment known to be one.
pub open spec fn as_ods(s: Segment) -> ODSegment {
    match s {
        Segment::ODS(x) => x,
        _ => vstd::pervasive::arbitrary(),
    }
}

/// The end segment inside a segment known to be one.
pub open spec fn as_end(s: Segment) -> ENDSegment {
    match s {
        Segment::END(x) => x,
        _ => vstd::pervasive::arbitrary(),
    }
}

/// What draining one display set from the queue yields: `None` until
/// an end segment and both mandatory segments are present; otherwise
/// the frame assembled from the first segment of each kind, in
/// encounter order, together with the queue left after removing them.
pub open spec fn spec_take_frame(q: Seq<Segment>) -> Option<(Frame, Seq<Segment>)> {
    if !(has_kind(q, SegmentType::END) && has_kind(q, SegmentType::PCS) && has_kind(
        q,
        SegmentType::WDS,
    )) {
        None
    } else {
        let pcs = as_pcs(q[first_kind(q, SegmentType::PCS)]);
        let q1 = q.remove(first_kind(q, SegmentType::PCS));
        let wds = as_wds(q1[first_kind(q1, SegmentType::WDS)]);
        let q2 = q1.remove(first_kind(q1, SegmentType::WDS));
        let pds = if has_kind(q2, SegmentType::PDS) {
            Some(as_pds(q2[first_kind(q2, SegmentType::PDS)]))
        } else {
            None
        };
        let q3 = if has_kind(q2, SegmentType::PDS) {
            q2.remove(first_kind(q2, SegmentType::PDS))
        } else {
            q2
        };
        let ods = if has_kind(q3, SegmentType::ODS) {
            Some(as_ods(q3[first_kind(q3, SegmentType::ODS)]))
        } else {
            None
        };
        let q4 = if has_kind(q3, SegmentType::ODS) {
            q3.remove(first_kind(q3, SegmentType::ODS))
        } else {
            q3
        };
        let end = as_end(q4[first_kind(q4, SegmentType::END)]);
        let q5 = q4.remove(first_kind(q4, SegmentType::END));
        Some((Frame { pcs, wds, pds, ods, end }, q5))
    }
}

/// Drain one display set from the front of the queue, if a whole one
/// is there.
///
/// Until an end segment has arrived, and with it a composition and a
/// window definition, nothing is removed and nothing is returned: a
/// partial display set stays buffered. Otherwise the first segment of
/// each kind is removed, in encounter order, and assembled into a
/// frame; palette and object definitions are optional and missing ones
/// are simply absent from the frame. Repeated calls drain consecutive
/// display sets in arrival order.
pub fn try_take_frame(segments: &mut Vec<Segment>) -> (r: Option<Frame>)
    ensures
        match r {
            Some(frame) => spec_take_frame(old(segments)@) == Some((frame, final(segments)@)),
            None => {
                &&& spec_take_frame(old(segments)@) is None
                &&& final(segments)@ == old(segments)@
            },
        },
{
    let ghost q0 = segments@;
    if !contains_kind(segments, SegmentType::END) {
        return None;
    }
    if !contains_kind(segments, SegmentType::PCS) {
        return None;
    }
    if !contains_kind(segments, SegmentType::WDS) {
        return None;
    }

    proof {
        lemma_first_kind(q0, SegmentType::PCS);
        lemma_remove_keeps_kind(q0, first_kind(q0, SegmentType::PCS), SegmentType::WDS);
        lemma_remove_keeps_kind(q0, first_kind(q0, SegmentType::PCS), SegmentType::END);
    }
    let pcs = match take_first(segments, SegmentType::PCS) {
        Some(Segment::PCS(x)) => x,
        _ => vstd::pervasive::unreached(),
    };
    let ghost q1 = segments@;

    proof {
        lemma_first_kind(q1, SegmentType::WDS);
        lemma_remove_keeps_kind(q1, first_kind(q1, SegmentType::WDS), SegmentType::END);
    }
    let wds = match take_first(segments, SegmentType::WDS) {
        Some(Segment::WDS(x)) => x,
        _ => vstd::pervasive::unreached(),
    };
    let ghost q2 = segments@;

    proof {
        if has_kind(q2, SegmentType::PDS) {
            lemma_first_kind(q2, SegmentType::PDS);
            lemma_remove_keeps_kind(q2, first_kind(q2, SegmentType::PDS), SegmentType::END);
        }
    }
    let pds = match take_first(segments, SegmentType::PDS) {
        Some(Segment::PDS(x)) => Some(x),
        None => None,
        _ => vstd::pervasive::unreached(),
    };
    let ghost q3 = segments@;

    proof {
        if has_kind(q3, SegmentType::ODS) {
            lemma_first_kind(q3, SegmentType::ODS);
            lemma_remove_keeps_kind(q3, first_kind(q3, SegmentType::ODS), SegmentType::END);
        }
    }
    let ods = match take_first(segments, SegmentType::ODS) {
        Some(Segment::ODS(x)) => Some(x),
        None => None,
        _ => vstd::pervasive::unreached(),
    };
    let ghost q4 = segments@;

    let end = match take_first(segments, SegmentType::END) {
        Some(Segment::END(x)) => x,
        _ => vstd::pervasive::unreached(),
    };

    Some(Frame { pcs, wds, pds, ods, end })
}

/// The first palette entry whose id is `id`, searched front to back.
pub open spec fn find_entry(entries: Seq<PalleteEntry>, id: u8) -> Option<PalleteEntry>
    decreases entries.len(),
{
    if entries.len() == 0 {
        None
    } else if entries[0].eid == id {
        Some(entries[0])
    } else {
        find_entry(entries.drop_first(), id)
    }
}

/// The RGBA bytes of one pixel with palette index `idx`: index 0 is
/// always fully-transparent black, whatever the palette holds; any
/// other index converts the first entry with a matching id, and falls
/// back to fully-transparent black when no entry matches.
pub open spec fn spec_pixel_rgba(entries: Seq<PalleteEntry>, idx: u8) -> Seq<u8> {
    if idx == 0 {
        seq![0u8, 0u8, 0u8, 0u8]
    } else {
        match find_entry(entries, idx) {
            Some(e) => spec_to_rgba(e),
            None => seq![0u8, 0u8, 0u8, 0u8],
        }
    }
}

/// Look one palette index up, per `spec_pixel_rgba`.
#[verifier::loop_isolation(false)]
fn lookup_color(entries: &Vec<PalleteEntry>, idx: u8) -> (r: [u8; 4])
    ensures
        r@ == spec_pixel_rgba(entries@, idx),
{
    if idx == 0 {
        let black = [0u8, 0u8, 0u8, 0u8];
        proof {
            assert(black@ =~= seq![0u8, 0u8, 0u8, 0u8]);
        }
        return black;
    }
    let mut i: usize = 0;
    proof {
        assert(entries@.skip(0) =~= entries@);
    }
    while i < entries.len()
        invariant
            i <= entries@.len(),
            find_entry(entries@, idx) == find_entry(entries@.skip(i as int), idx),
        decreases entries@.len() - i,
    {
        proof {
            assert(entries@.skip(i as int)[0] == entries@[i as int]);
        }
        if entries[i].eid == idx {
            return entries[i].to_rgba();
        }
        i = i + 1;
        proof {
            assert(entries@.skip(i - 1).drop_first() =~= entries@.skip(i as int));
        }
    }
    proof {
        assert(entries@.skip(i as int) =~= Seq::<PalleteEntry>::empty());
    }
    let black = [0u8, 0u8, 0u8, 0u8];
    proof {
        assert(black@ =~= seq![0u8, 0u8, 0u8, 0u8]);
    }
    black
}

/// The RGBA bytes of pixel `i` of a raster built from `decoded` pixels
/// over `entries`: pixels past the decoded data are transparent black.
pub open spec fn spec_raster_pixel(entries: Seq<PalleteEntry>, decoded: Seq<u8>, i: int) -> Seq<
    u8,
> {
    if i < decoded.len() {
        spec_pixel_rgba(entries, decoded[i])
    } else {
        seq![0u8, 0u8, 0u8, 0u8]
    }
}

impl Frame {
    /// The presentation timestamp of the display set.
    pub fn pts(&self) -> (r: u32)
        ensures
            r == self.pcs.header.pts,
    {
        self.pcs.header.pts
    }

    /// The on-screen horizontal position: that of the first composition
    /// object, or nothing when the composition places no object.
    pub fn image_x(&self) -> (r: Option<u16>)
        ensures
            match r {
                Some(x) => self.pcs.objects@.len() > 0 && x == self.pcs.objects@[0].x,
                None => self.pcs.objects@.len() == 0,
            },
    {
        if self.pcs.objects.len() > 0 {
            Some(self.pcs.objects[0].x)
        } else {
            None
        }
    }

    /// The on-screen vertical position: that of the first composition
    /// object, or nothing when the composition places no object.
    pub fn image_y(&self) -> (r: Option<u16>)
        ensures
            match r {
                Some(y) => self.pcs.objects@.len() > 0 && y == self.pcs.objects@[0].y,
                None => self.pcs.objects@.len() == 0,
            },
    {
        if self.pcs.objects.len() > 0 {
            Some(self.pcs.objects[0].y)
        } else {
            None
        }
    }

    /// Produce the RGBA raster of this frame, sized to the object
    /// definition's declared width and height.
    ///
    /// Yields nothing exactly when the frame has no object definition
    /// or no palette definition, when the compressed bitmap does not
    /// decode, or when the pixel buffer would not fit in memory.
    /// Otherwise pixel `i` sits at `(i % width, i / width)` and holds
    /// the bytes `spec_raster_pixel` names; decoded pixels past
    /// `width * height` are dropped, missing ones are transparent
    /// black.
    #[verifier::loop_isolation(false)]
    pub fn get_pixels(&self) -> (r: Option<Raster>)
        ensures
            match r {
                Some(img) => {
                    &&& self.ods is Some
                    &&& self.pds is Some
                    &&& spec_decode_rle(self.ods->Some_0.object_data@) is Some
                    &&& img.width == self.ods->Some_0.width
                    &&& img.height == self.ods->Some_0.height
                    &&& img.data@.len() == 4 * (img.width as int) * (img.height as int)
                    &&& forall|i: int|
                        0 <= i < (img.width as int) * (img.height as int)
                            ==> #[trigger] img.data@.subrange(4 * i, 4 * i + 4)
                            == spec_raster_pixel(
                            self.pds->Some_0.palletes@,
                            spec_decode_rle(self.ods->Some_0.object_data@)->Some_0,
                            i,
                        )
                },
                None => {
                    ||| self.ods is None
                    ||| self.pds is None
                    ||| spec_decode_rle(self.ods->Some_0.object_data@) is None
                    ||| 4 * (self.ods->Some_0.width as int) * (self.ods->Some_0.height as int)
                        > usize::MAX
                },
            },
    {
        let ods = match &self.ods {
            Some(o) => o,
            None => {
                return None;
            },
        };
        let pds = match &self.pds {
            Some(p) => p,
            None => {
                return None;
            },
        };
        let decoded = match decode_rle(ods.object_data.as_slice()) {
            Ok(v) => v,
            Err(_) => {
                return None;
            },
        };
        let w64 = ods.width as u64;
        let h64 = ods.height as u64;
        proof {
            assert((4 * w64) * h64 < 0x400000000) by (nonlinear_arith)
                requires
                    w64 < 0x10000,
                    h64 < 0x10000,
            ;
        }
        let total64: u64 = (4 * w64) * h64;
        if total64 > usize::MAX as u64 {
            proof {
                assert(4 * (w64 as int) * (h64 as int) == total64 as int) by (nonlinear_arith)
                    requires
                        total64 == (4 * w64) * h64,
                ;
            }
            return None;
        }
        let w = ods.width as usize;
        let h = ods.height as usize;
        proof {
            assert((w as int) * (h as int) * 4 == total64 as int) by (nonlinear_arith)
                requires
                    w == w64 as int,
                    h == h64 as int,
                    total64 == (4 * w64) * h64,
            ;
        }
        let n_pixels: usize = w * h;
        let mut data: Vec<u8> = Vec::new();
        let mut i: usize = 0;
        while i < n_pixels
            invariant
                i <= n_pixels,
                data@.len() == 4 * i,
                forall|j: int|
                    0 <= j < i ==> #[trigger] data@.subrange(4 * j, 4 * j + 4)
                        == spec_raster_pixel(pds.palletes@, decoded@, j),
            decreases n_pixels - i,
        {
            let ghost data0 = data@;
            let px: [u8; 4] = if i < decoded.len() {
                lookup_color(&pds.palletes, decoded[i])
            } else {
                let black = [0u8, 0u8, 0u8, 0u8];
                proof {
                    assert(black@ =~= seq![0u8, 0u8, 0u8, 0u8]);
                }
                black
            };
            data.push(px[0]);
            data.push(px[1]);
            data.push(px[2]);
            data.push(px[3]);
            i = i + 1;
            proof {
                assert forall|j: int| 0 <= j < i implies #[trigger] data@.subrange(
                    4 * j,
                    4 * j + 4,
                ) == spec_raster_pixel(pds.palletes@, decoded@, j) by {
                    if j < i - 1 {
                        assert(data@.subrange(4 * j, 4 * j + 4) =~= data0.subrange(
                            4 * j,
                            4 * j + 4,
                        ));
                    } else {
                        assert(data@.subrange(4 * j, 4 * j + 4) =~= px@);
                    }
                }
            }
        }
        proof {
            assert(4 * (w as int) * (h as int) == 4 * ((w as int) * (h as int))) by (
            nonlinear_arith);
        }
        Some(Raster { width: ods.width, height: ods.height, data })
    }
}

} // verus!
