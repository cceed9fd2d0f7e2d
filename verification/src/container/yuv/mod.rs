//! Raw YUV 4:2:0 pictures, one after the other with no header.
pub mod demuxer;
pub mod format;
pub mod laws;
pub mod muxer;

pub use demuxer::YuvDemuxer;
pub use format::YuvFormat;
pub use muxer::YuvMuxer;
