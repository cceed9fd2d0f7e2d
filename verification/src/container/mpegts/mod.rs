//! MPEG transport streams: 188-byte packets carrying tables and PES packets.
pub mod demuxer;
pub mod laws;
pub mod muxer;

pub use muxer::{TsAudioTrack, TsMuxer, TsVideoTrack};
