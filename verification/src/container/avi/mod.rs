//! AVI: a RIFF file with a header list, a `movi` list of packet chunks and an `idx1` index.
pub mod demuxer;
pub mod laws;
pub mod muxer;

pub use demuxer::AviDemuxer;
pub use muxer::{AviAudioTrack, AviMuxer, AviVideoTrack};
