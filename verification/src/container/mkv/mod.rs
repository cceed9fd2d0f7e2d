//! Matroska: EBML elements, a header, a segment of info and tracks, then clusters of blocks.
pub mod ebml;
pub mod laws;
pub mod muxer;

pub use muxer::{AudioTrackInfo, MkvMuxer, VideoTrackInfo};
