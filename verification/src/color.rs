use vstd::prelude::*;

verus! {

/// One palette entry: entry id, luma, two chroma channels, alpha.
#[derive(Clone, Copy, Debug, PartialEq, Eq, Structural)]
pub struct PalleteEntry {
    /// The id that palette-index bytes in the bitmap refer to.
    pub eid: u8,
    /// Luma.
    pub y: u8,
    /// Chroma red.
    pub cr: u8,
    /// Chroma blue.
    pub cb: u8,
    /// Opacity, passed through to the output unchanged.
    pub alpha: u8,
}

/// Scale a transform numerator (ten thousand times the output channel
/// value) down to a byte: truncate toward zero and saturate into
/// 0..=255.
pub open spec fn spec_clamp_channel(n: int) -> u8 {
    if n <= 0 {
        0u8
    } else if n >= 2550000 {
        255u8
    } else {
        (n / 10000) as u8
    }
}

/// The red, green and blue bytes of the fixed luma/chroma transform.
///
/// The transform matrix is the constant
/// `[[1, 1, 1], [0, -0.1873, 1.8556], [1.5748, -0.4682, 0]]`, applied
/// to the column `(y, cb, cr)` with every channel normalized into
/// [0,1]; each output channel is scaled by 255 and truncated into a
/// byte. Written over integers, with the coefficients scaled by ten
/// thousand, that is the formula below. This is a deliberate
/// approximation of a broadcast color transform, not color management.
pub open spec fn rgb_of(y: u8, cr: u8, cb: u8) -> (u8, u8, u8) {
    (
        spec_clamp_channel(10000 * y + 10000 * cb + 10000 * cr),
        spec_clamp_channel(-1873 * cb + 18556 * cr),
        spec_clamp_channel(15748 * y - 4682 * cb),
    )
}

/// Relies on simple_matrix's `Matrix::from_iter` (row-major fill) and
/// its `Mul` impl (the standard matrix product): multiplies the fixed
/// transform matrix, scaled by ten thousand to integer entries, with
/// the column of the three channel bytes, and hands back the three
/// resulting numerators.
#[verifier::external_body]
fn transform_channels(y: u8, cr: u8, cb: u8) -> (r: (i64, i64, i64))
    ensures
        r.0 == 10000 * (y as i64) + 10000 * (cb as i64) + 10000 * (cr as i64),
        r.1 == -1873 * (cb as i64) + 18556 * (cr as i64),
        r.2 == 15748 * (y as i64) - 4682 * (cb as i64),
{
    let m = simple_matrix::Matrix::from_iter(
        3,
        3,
        vec![10000i64, 10000, 10000, 0, -1873, 18556, 15748, -4682, 0],
    );
    let v = simple_matrix::Matrix::from_iter(3, 1, vec![y as i64, cb as i64, cr as i64]);
    let rgb = m * v;
    (*rgb.get(0, 0).unwrap(), *rgb.get(1, 0).unwrap(), *rgb.get(2, 0).unwrap())
}

/// Scale a numerator from `transform_channels` down to a byte, per
/// `spec_clamp_channel`.
fn clamp_channel(n: i64) -> (r: u8)
    ensures
        r == spec_clamp_channel(n as int),
{
    if n <= 0 {
        0
    } else if n >= 2550000 {
        255
    } else {
        (n / 10000) as u8
    }
}

/// The RGBA quadruple for a palette entry: the fixed transform for the
/// color channels, the alpha passed through unchanged.
pub open spec fn spec_to_rgba(e: PalleteEntry) -> Seq<u8> {
    seq![
        rgb_of(e.y, e.cr, e.cb).0,
        rgb_of(e.y, e.cr, e.cb).1,
        rgb_of(e.y, e.cr, e.cb).2,
        e.alpha,
    ]
}

impl PalleteEntry {
    /// Convert this entry to RGBA bytes. The color channels go through
    /// the fixed luma/chroma transform; alpha is passed through.
    pub fn to_rgba(&self) -> (r: [u8; 4])
        ensures
            r@ == spec_to_rgba(*self),
    {
        let (rn, gn, bn) = transform_channels(self.y, self.cr, self.cb);
        let rgba = [clamp_channel(rn), clamp_channel(gn), clamp_channel(bn), self.alpha];
        proof {
            assert(rgba@ =~= spec_to_rgba(*self));
        }
        rgba
    }
}

} // verus!
