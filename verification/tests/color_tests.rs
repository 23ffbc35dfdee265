use pyrite::color::PalleteEntry;

#[test]
fn dark_entry_keeps_full_alpha() {
    let e = PalleteEntry { eid: 1, y: 0, cr: 128, cb: 128, alpha: 255 };
    let rgba = e.to_rgba();
    assert_eq!(rgba[3], 255);
    // with zero luma the blue channel's chroma term is negative: clamped to 0
    assert_eq!(rgba[2], 0);
    // exact values of the fixed transform for this entry
    assert_eq!(rgba, [255, 213, 0, 255]);
}

#[test]
fn bright_entry_keeps_zero_alpha() {
    let e = PalleteEntry { eid: 1, y: 255, cr: 128, cb: 128, alpha: 0 };
    let rgba = e.to_rgba();
    assert_eq!(rgba[3], 0);
    assert!(rgba[0] >= 200 && rgba[1] >= 200 && rgba[2] >= 200);
    assert_eq!(rgba, [255, 213, 255, 0]);
}

#[test]
fn zero_entry_is_black() {
    let e = PalleteEntry { eid: 0, y: 0, cr: 0, cb: 0, alpha: 0 };
    assert_eq!(e.to_rgba(), [0, 0, 0, 0]);
}

#[test]
fn transform_depends_on_every_channel() {
    // luma alone feeds red and blue
    let e = PalleteEntry { eid: 2, y: 10, cr: 0, cb: 0, alpha: 42 };
    assert_eq!(e.to_rgba(), [10, 0, 15, 42]);
    // chroma red alone feeds red and green
    let e = PalleteEntry { eid: 2, y: 0, cr: 100, cb: 0, alpha: 7 };
    // r = 100, g = 18556 * 100 / 10000 = 185, b = 0
    assert_eq!(e.to_rgba(), [100, 185, 0, 7]);
    // chroma blue alone feeds red, drags green negative, drags blue negative
    let e = PalleteEntry { eid: 2, y: 0, cr: 0, cb: 100, alpha: 9 };
    assert_eq!(e.to_rgba(), [100, 0, 0, 9]);
}
