use pyrite::color::PalleteEntry;
use pyrite::frame::try_take_frame;
use pyrite::header::Header;
use pyrite::header::SegmentType;
use pyrite::segment::ENDSegment;
use pyrite::segment::ODSegment;
use pyrite::segment::PCSegment;
use pyrite::segment::PDSegment;
use pyrite::segment::Segment;
use pyrite::segment::WDSegment;

fn header(segment_type: SegmentType, pts: u32) -> Header {
    Header { pts, dts: 0, segment_type, segment_size: 0 }
}

fn pcs(pts: u32) -> Segment {
    Segment::PCS(PCSegment {
        header: header(SegmentType::PCS, pts),
        width: 1920,
        height: 1080,
        fps: 0x10,
        composition_n: 1,
        composition_s: 0x80,
        pallete_update: false,
        pallete_id: 0,
        num_objects: 0,
        objects: vec![],
    })
}

fn wds(pts: u32) -> Segment {
    Segment::WDS(WDSegment {
        header: header(SegmentType::WDS, pts),
        n_windows: 1,
        wid: 0,
        x_pos: 0,
        y_pos: 0,
        width: 1920,
        height: 1080,
    })
}

fn pds(pts: u32) -> Segment {
    Segment::PDS(PDSegment {
        header: header(SegmentType::PDS, pts),
        pid: 0,
        version: 0,
        palletes: vec![PalleteEntry { eid: 1, y: 128, cr: 128, cb: 128, alpha: 255 }],
    })
}

fn ods(pts: u32) -> Segment {
    Segment::ODS(ODSegment {
        header: header(SegmentType::ODS, pts),
        id: 1,
        version: 0,
        seq_flag: 0xC0,
        data_len: 7,
        width: 1,
        height: 1,
        object_data: vec![0x00, 0x81, 0x01],
    })
}

fn end(pts: u32) -> Segment {
    Segment::END(ENDSegment { header: header(SegmentType::END, pts) })
}

#[test]
fn no_end_segment_means_no_frame() {
    let mut queue = vec![pcs(1), wds(1), pds(1), ods(1)];
    assert!(try_take_frame(&mut queue).is_none());
    assert_eq!(queue.len(), 4);
}

#[test]
fn empty_queue_means_no_frame() {
    let mut queue: Vec<Segment> = vec![];
    assert!(try_take_frame(&mut queue).is_none());
}

#[test]
fn end_without_mandatory_segments_means_no_frame() {
    let mut queue = vec![pds(1), end(1)];
    assert!(try_take_frame(&mut queue).is_none());
    assert_eq!(queue.len(), 2);
}

#[test]
fn minimal_display_set_yields_bare_frame() {
    let mut queue = vec![pcs(7), wds(7), end(7)];
    let frame = try_take_frame(&mut queue).unwrap();
    assert!(queue.is_empty());
    assert_eq!(frame.pts(), 7);
    assert!(frame.pds.is_none());
    assert!(frame.ods.is_none());
    // a frame without palette and object data has no image
    assert!(frame.get_pixels().is_none());
    // and a composition without objects has no position
    assert!(frame.image_x().is_none());
    assert!(frame.image_y().is_none());
}

#[test]
fn two_display_sets_drain_in_arrival_order() {
    let mut queue = vec![
        pcs(10), wds(10), pds(10), ods(10), end(10), // first display set
        pcs(20), wds(20), end(20), // second display set
    ];
    assert_eq!(queue.len(), 8);

    let first = try_take_frame(&mut queue).unwrap();
    assert_eq!(first.pts(), 10);
    assert!(first.pds.is_some());
    assert!(first.ods.is_some());
    assert_eq!(queue.len(), 3);

    let second = try_take_frame(&mut queue).unwrap();
    assert_eq!(second.pts(), 20);
    assert!(second.pds.is_none());
    assert!(second.ods.is_none());
    assert!(queue.is_empty());

    assert!(try_take_frame(&mut queue).is_none());
}

#[test]
fn takes_first_of_each_kind_in_encounter_order() {
    let mut queue = vec![pds(1), pcs(2), wds(3), end(4), pcs(5)];
    let frame = try_take_frame(&mut queue).unwrap();
    assert_eq!(frame.pcs.header.pts, 2);
    assert_eq!(frame.wds.header.pts, 3);
    assert_eq!(frame.pds.as_ref().unwrap().header.pts, 1);
    assert!(frame.ods.is_none());
    assert_eq!(frame.end.header.pts, 4);
    // the later composition stays buffered
    assert_eq!(queue.len(), 1);
    assert!(matches!(queue[0], Segment::PCS(_)));
}

#[test]
fn renders_one_pixel_frame() {
    let mut queue = vec![pcs(10), wds(10), pds(10), ods(10), end(10)];
    let frame = try_take_frame(&mut queue).unwrap();
    let img = frame.get_pixels().unwrap();
    assert_eq!(img.width, 1);
    assert_eq!(img.height, 1);
    let entry = PalleteEntry { eid: 1, y: 128, cr: 128, cb: 128, alpha: 255 };
    assert_eq!(img.data, entry.to_rgba().to_vec());
}

#[test]
fn palette_index_zero_is_transparent_black() {
    // a single implicit-color pixel: palette index 0, whatever the palette holds
    let mut queue = vec![pcs(10), wds(10), pds(10)];
    queue.push(Segment::ODS(ODSegment {
        header: header(SegmentType::ODS, 10),
        id: 1,
        version: 0,
        seq_flag: 0xC0,
        data_len: 6,
        width: 1,
        height: 1,
        object_data: vec![0x00, 0x01],
    }));
    queue.push(end(10));
    let frame = try_take_frame(&mut queue).unwrap();
    let img = frame.get_pixels().unwrap();
    assert_eq!(img.data, vec![0, 0, 0, 0]);
}

#[test]
fn unknown_palette_index_is_transparent_black() {
    // the bitmap names palette index 2; only entry id 1 exists
    let mut queue = vec![pcs(10), wds(10), pds(10)];
    queue.push(Segment::ODS(ODSegment {
        header: header(SegmentType::ODS, 10),
        id: 1,
        version: 0,
        seq_flag: 0xC0,
        data_len: 7,
        width: 1,
        height: 1,
        object_data: vec![0x00, 0x81, 0x02],
    }));
    queue.push(end(10));
    let frame = try_take_frame(&mut queue).unwrap();
    let img = frame.get_pixels().unwrap();
    assert_eq!(img.data, vec![0, 0, 0, 0]);
}

#[test]
fn missing_pixels_pad_with_transparent_black() {
    // a 2 x 1 bitmap whose run-length data yields a single pixel
    let mut queue = vec![pcs(10), wds(10), pds(10)];
    queue.push(Segment::ODS(ODSegment {
        header: header(SegmentType::ODS, 10),
        id: 1,
        version: 0,
        seq_flag: 0xC0,
        data_len: 7,
        width: 2,
        height: 1,
        object_data: vec![0x00, 0x81, 0x01],
    }));
    queue.push(end(10));
    let frame = try_take_frame(&mut queue).unwrap();
    let img = frame.get_pixels().unwrap();
    let entry = PalleteEntry { eid: 1, y: 128, cr: 128, cb: 128, alpha: 255 };
    let mut expected = entry.to_rgba().to_vec();
    expected.extend(vec![0, 0, 0, 0]);
    assert_eq!(img.data, expected);
}

#[test]
fn undecodable_bitmap_yields_no_image() {
    let mut queue = vec![pcs(10), wds(10), pds(10)];
    queue.push(Segment::ODS(ODSegment {
        header: header(SegmentType::ODS, 10),
        id: 1,
        version: 0,
        seq_flag: 0xC0,
        data_len: 5,
        width: 1,
        height: 1,
        object_data: vec![0x00],
    }));
    queue.push(end(10));
    let frame = try_take_frame(&mut queue).unwrap();
    assert!(frame.get_pixels().is_none());
}

#[test]
fn position_comes_from_first_composition_object() {
    let mut queue = vec![pcs(10), wds(10), end(10)];
    if let Segment::PCS(p) = &mut queue[0] {
        p.num_objects = 1;
        p.objects = vec![pyrite::segment::CompObj {
            id: 1,
            wid: 0,
            cropped_flag: false,
            x: 123,
            y: 45,
            crop: None,
        }];
    }
    let frame = try_take_frame(&mut queue).unwrap();
    assert_eq!(frame.image_x(), Some(123));
    assert_eq!(frame.image_y(), Some(45));
}
