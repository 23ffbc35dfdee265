//! Decoder for Presentation Graphic Stream (PGS) bitmap subtitles.
//!
//! A PGS stream is a concatenation of self-describing binary segments,
//! each carrying a 13-byte header followed by a typed payload. The
//! library parses those segments, expands the run-length-encoded bitmap
//! payloads, converts palette entries to RGBA, and assembles complete
//! display sets into renderable frames.

pub mod color;
pub mod error;
pub mod frame;
pub mod header;
pub mod rle;
pub mod segment;
