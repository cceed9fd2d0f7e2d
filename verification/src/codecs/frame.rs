use crate::media::Channels;
use vstd::prelude::*;

verus! {

/// Decoded PCM audio.
#[derive(Debug, Clone)]
pub struct AudioFrame {
    pub data: Vec<u8>,
    pub sample_rate: u32,
    pub channels: Channels,
    pub bit_depth: u16,
    pub stream_id: u32,
    pub pts: i64,
}

/// A decoded picture.
#[derive(Debug, Clone)]
pub struct VideoFrame {
    pub data: Vec<u8>,
    pub width: u32,
    pub height: u32,
    /// Bits per component.
    pub depth: u8,
    pub keyframe: bool,
    pub stream_id: u32,
    pub pts: i64,
}

/// A decoded frame.
#[derive(Debug, Clone)]
pub enum Frame {
    Audio(AudioFrame),
    Video(VideoFrame),
}

} // verus!
