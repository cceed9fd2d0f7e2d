//! Container formats: how streams of packets are laid out in a file.
pub mod chunked;
pub mod container;
pub mod constants;
pub mod wav;

pub use constants::CHUNK_SIZE_LIMIT;
pub mod raw;
pub mod register;
pub mod flac;
pub mod avi;
pub mod mpegts;
pub mod mkv;
pub mod mp3;
pub mod yuv;
