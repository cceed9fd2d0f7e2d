//! Codecs: what decoders make of packets and encoders of frames.
pub mod frame;
pub mod h264;
pub mod ids;
pub mod pcm;
pub mod register;
pub mod yuv;
