//! RIFF/WAVE files.
pub mod demuxer;
pub mod format;
pub mod header;
pub mod muxer;
pub mod samples;


pub use format::WavFormat;

pub mod laws;
