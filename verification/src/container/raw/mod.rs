//! Headerless PCM sample data.
pub mod demuxer;
pub mod format;
pub mod laws;
pub mod muxer;

pub use demuxer::RawPcmDemuxer;
pub use format::{RawPcmFormat, RawPcmMetadata};
pub use muxer::RawPcmMuxer;
