//! MP3 files: an optional ID3v2 tag, then MPEG audio frames handed out in chunks.
pub mod demuxer;

pub use demuxer::Mp3Demuxer;
