//! FLAC files: the stream header and its metadata blocks.
pub mod demuxer;
pub mod format;
pub mod laws;
pub mod muxer;


pub use demuxer::FlacDemuxer;
pub use format::{FlacFormat, FlacMetadata};
pub use muxer::FlacMuxer;

