use vstd::prelude::*;

use crate::error::PgsError;
use crate::header::spec_be_u16;

verus! {

/// The meaning of a compressed bitmap payload, decoded left to right
/// into one palette-index byte per pixel. `None` means the buffer ends
/// in the middle of a control sequence.
///
/// A nonzero leading byte emits a single pixel of the fixed marker
/// value 1. A zero byte starts a control sequence: a zero info byte
/// emits nothing (line-end marker); otherwise bit 7 of the info byte
/// says an explicit color byte follows, bit 6 says the run length
/// takes a second byte, and bits 5..0 are the length's low six bits.
/// A run without an explicit color uses the implicit color 0.
pub open spec fn spec_decode_rle(s: Seq<u8>) -> Option<Seq<u8>>
    decreases s.len(),
{
    if s.len() == 0 {
        Some(Seq::empty())
    } else if s[0] != 0 {
        match spec_decode_rle(s.skip(1)) {
            Some(rest) => Some(seq![1u8] + rest),
            None => None,
        }
    } else if s.len() < 2 {
        None
    } else if s[1] == 0 {
        spec_decode_rle(s.skip(2))
    } else {
        let info = s[1];
        let explicit_color = (info >> 7) & 1 == 1;
        let long_run = (info >> 6) & 1 == 1;
        let control = 2 + (if long_run { 1int } else { 0int }) + (if explicit_color {
            1int
        } else {
            0int
        });
        if s.len() < control {
            None
        } else {
            let run_len = if long_run {
                spec_be_u16(info & 0x3f, s[2]) as int
            } else {
                (info & 0x3f) as int
            };
            let color = if explicit_color {
                if long_run {
                    s[3]
                } else {
                    s[2]
                }
            } else {
                0u8
            };
            match spec_decode_rle(s.skip(control)) {
                Some(rest) => Some(Seq::new(run_len as nat, |j: int| color) + rest),
                None => None,
            }
        }
    }
}

/// What the whole decode yields once `prefix` has already been
/// emitted and `s` is the input still to be read.
pub open spec fn decode_suffix(prefix: Seq<u8>, s: Seq<u8>) -> Option<Seq<u8>> {
    match spec_decode_rle(s) {
        Some(rest) => Some(prefix + rest),
        None => None,
    }
}

/// Re-associates the emitted run with the prefix: appending `emitted`
/// to the prefix commutes with prepending it to the tail's output.
proof fn lemma_emit_assoc(prefix: Seq<u8>, emitted: Seq<u8>, tail: Option<Seq<u8>>)
    ensures
        (match tail {
            Some(rest) => Some(prefix + (emitted + rest)),
            None => None::<Seq<u8>>,
        }) == (match tail {
            Some(rest) => Some((prefix + emitted) + rest),
            None => None::<Seq<u8>>,
        }),
{
    match tail {
        Some(rest) => {
            assert(prefix + (emitted + rest) =~= (prefix + emitted) + rest);
        },
        None => {},
    }
}

/// Expand a compressed bitmap payload into one palette-index byte per
/// pixel, per `spec_decode_rle`. Fails with `TruncatedRle` exactly
/// when the input ends in the middle of a control sequence.
#[verifier::loop_isolation(false)]
pub fn decode_rle(data: &[u8]) -> (r: Result<Vec<u8>, PgsError>)
    ensures
        match r {
            Ok(v) => spec_decode_rle(data@) == Some(v@),
            Err(PgsError::TruncatedRle) => spec_decode_rle(data@) is None,
            Err(_) => false,
        },
{
    let mut out: Vec<u8> = Vec::new();
    let mut pos: usize = 0;
    proof {
        assert(data@.skip(0) =~= data@);
        match spec_decode_rle(data@) {
            Some(rest) => {
                assert(out@ + rest =~= rest);
            },
            None => {},
        }
    }
    while pos < data.len()
        invariant
            pos <= data@.len(),
            spec_decode_rle(data@) == decode_suffix(out@, data@.skip(pos as int)),
        decreases data@.len() - pos,
    {
        let ghost pre = data@.skip(pos as int);
        let ghost out0 = out@;
        let c = data[pos];
        if c != 0 {
            pos = pos + 1;
            out.push(1u8);
            proof {
                assert(data@.skip(pos as int) =~= pre.skip(1));
                lemma_emit_assoc(out0, seq![1u8], spec_decode_rle(pre.skip(1)));
                assert(out@ =~= out0 + seq![1u8]);
            }
        } else if data.len() - pos < 2 {
            proof {
                assert(pre.len() < 2);
            }
            return Err(PgsError::TruncatedRle);
        } else {
            let info = data[pos + 1];
            if info == 0 {
                pos = pos + 2;
                proof {
                    assert(data@.skip(pos as int) =~= pre.skip(2));
                }
            } else {
                let explicit_color = (info >> 7) & 1 == 1;
                let long_run = (info >> 6) & 1 == 1;
                let control: usize = 2 + (if long_run {
                    1
                } else {
                    0
                }) + (if explicit_color {
                    1
                } else {
                    0
                });
                if data.len() - pos < control {
                    proof {
                        assert(pre.len() < control as int);
                    }
                    return Err(PgsError::TruncatedRle);
                }
                let run_len: u16 = if long_run {
                    (((info & 0x3f) as u16) << 8) | (data[pos + 2] as u16)
                } else {
                    (info & 0x3f) as u16
                };
                let color: u8 = if explicit_color {
                    if long_run {
                        data[pos + 3]
                    } else {
                        data[pos + 2]
                    }
                } else {
                    0
                };
                let ghost run = Seq::new(run_len as nat, |j: int| color);
                let ghost before_run = out@;
                let mut k: u16 = 0;
                while k < run_len
                    invariant
                        k <= run_len,
                        out@ == before_run + Seq::new(k as nat, |j: int| color),
                    decreases run_len - k,
                {
                    out.push(color);
                    k = k + 1;
                    proof {
                        assert(out@ =~= before_run + Seq::new(k as nat, |j: int| color));
                    }
                }
                pos = pos + control;
                proof {
                    assert(data@.skip(pos as int) =~= pre.skip(control as int));
                    lemma_emit_assoc(out0, run, spec_decode_rle(pre.skip(control as int)));
                    assert(out@ == out0 + run);
                }
            }
        }
    }
    proof {
        assert(data@.skip(pos as int) =~= Seq::<u8>::empty());
        match spec_decode_rle(data@.skip(pos as int)) {
            Some(rest) => {
                assert(out@ + rest =~= out@);
            },
            None => {},
        }
    }
    Ok(out)
}

} // verus!
