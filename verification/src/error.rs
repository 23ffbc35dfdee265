use vstd::prelude::*;

verus! {

/// Everything that can go wrong while decoding a stream.
///
/// `InsufficientData` is recoverable: the caller should buffer more
/// input and retry from the same offset. The other three report
/// corruption that no further input can repair.
#[derive(Clone, Copy, Debug, PartialEq, Eq, Structural)]
pub enum PgsError {
    /// The input ends before a complete segment header; more bytes may help.
    InsufficientData,
    /// The magic bytes are wrong or the segment-type tag is unknown.
    MalformedHeader,
    /// A payload is shorter than its declared size, or the declared
    /// sizes are inconsistent with each other.
    TruncatedSegment,
    /// A run-length-encoded bitmap ran out of bytes mid-run.
    TruncatedRle,
}

impl PgsError {
    /// A human-readable description of the error.
    pub fn describe(&self) -> String {
        match self {
            PgsError::InsufficientData => "more input is needed".to_string(),
            PgsError::MalformedHeader => "malformed segment header".to_string(),
            PgsError::TruncatedSegment => "truncated segment payload".to_string(),
            PgsError::TruncatedRle => "truncated run-length data".to_string(),
        }
    }
}

} // verus!
