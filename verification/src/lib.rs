//! Media containers and codecs: WAV, raw PCM, FLAC, Matroska, AVI, MPEG-TS and MP3 framing.
pub mod error;
pub mod io;
pub mod media;
pub mod metadata;
pub mod text;
pub mod container;
pub mod cli;
pub mod codecs;
