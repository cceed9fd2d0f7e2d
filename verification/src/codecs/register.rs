//! The codec registry: which decoder and encoder each codec name opens.
use super::pcm::{PcmDecoder, PcmEncoder};
use super::yuv::{YuvDecoder, YuvEncoder};
use crate::cli::args::{texts, BaseOptions};
use crate::cli::codec_option::codec_in_options;
use crate::error::Error;
use crate::media::Format;
use rustc_hash::FxHashMap;
use vstd::prelude::*;

verus! {

/// A decoder that a codec entry opens.
#[derive(Debug, Clone, Copy)]
pub enum CodecDecoder {
    Pcm(PcmDecoder),
    Yuv(YuvDecoder),
}

/// An encoder that a codec entry opens.
#[derive(Debug, Clone, Copy)]
pub enum CodecEncoder {
    Pcm(PcmEncoder),
    Yuv(YuvEncoder),
}

/// How a codec opens a decoder for the format of a stream.
#[derive(Debug, Clone, Copy, PartialEq, Eq, Structural)]
pub enum DecoderFactory {
    /// A PCM decoder at the stream's audio format.
    Pcm,
    /// A raw picture decoder at the stream's video format.
    Yuv,
}

/// How a codec opens an encoder for an output format.
#[derive(Debug, Clone, Copy, PartialEq, Eq, Structural)]
pub enum EncoderFactory {
    /// A PCM encoder at a WAVE format.
    Pcm,
    /// A raw picture encoder at a raw YUV format.
    Yuv,
}

/// The decoder a factory opens for a format: PCM for an audio format, raw pictures for a
/// video one; `WrongFormat` for any other.
pub open spec fn decoder_opened(factory: DecoderFactory, format: Format) -> Result<CodecDecoder, Error> {
    match (factory, format) {
        (DecoderFactory::Pcm, Format::Wav(w)) => Ok(
            CodecDecoder::Pcm(PcmDecoder { sample_rate: w.sample_rate, channels: w.channels, bit_depth: w.bit_depth }),
        ),
        (DecoderFactory::Yuv, Format::Video(v)) => Ok(
            CodecDecoder::Yuv(YuvDecoder { width: v.width, height: v.height, depth: v.depth }),
        ),
        (DecoderFactory::Yuv, Format::Yuv(y)) => Ok(
            CodecDecoder::Yuv(YuvDecoder { width: y.width, height: y.height, depth: y.depth }),
        ),
        _ => Err(Error::WrongFormat),
    }
}

/// The encoder a factory opens for a format: PCM at a WAVE format, raw pictures at a raw YUV
/// format; `WrongFormat` for any other.
pub open spec fn encoder_opened(factory: EncoderFactory, format: Format) -> Result<CodecEncoder, Error> {
    match (factory, format) {
        (EncoderFactory::Pcm, Format::Wav(w)) => Ok(
            CodecEncoder::Pcm(PcmEncoder { sample_rate: w.sample_rate, target_bit_depth: Some(w.bit_depth) }),
        ),
        (EncoderFactory::Yuv, Format::Yuv(y)) => Ok(CodecEncoder::Yuv(YuvEncoder { format: y })),
        _ => Err(Error::WrongFormat),
    }
}

impl DecoderFactory {
    /// Opens this factory's decoder for a stream of `format`.
    pub fn open(&self, format: &Format) -> (r: Result<CodecDecoder, Error>)
        ensures
            r == decoder_opened(*self, *format),
    {
        match (self, format) {
            (DecoderFactory::Pcm, Format::Wav(w)) => Ok(CodecDecoder::Pcm(PcmDecoder::from_format(w))),
            (DecoderFactory::Yuv, Format::Video(v)) => Ok(CodecDecoder::Yuv(YuvDecoder::from_format(v))),
            (DecoderFactory::Yuv, Format::Yuv(y)) => Ok(CodecDecoder::Yuv(YuvDecoder::from_yuv(y))),
            _ => Err(Error::WrongFormat),
        }
    }
}

impl EncoderFactory {
    /// Opens this factory's encoder for output in `format`.
    pub fn open(&self, format: &Format) -> (r: Result<CodecEncoder, Error>)
        ensures
            r == encoder_opened(*self, *format),
    {
        match (self, format) {
            (EncoderFactory::Pcm, Format::Wav(w)) => Ok(CodecEncoder::Pcm(PcmEncoder::from_format(w))),
            (EncoderFactory::Yuv, Format::Yuv(y)) => Ok(CodecEncoder::Yuv(YuvEncoder::from_format(y))),
            _ => Err(Error::WrongFormat),
        }
    }
}

/// What a codec name registers: its decoder and its encoder, where it has them.
#[derive(Debug, Clone, Copy, PartialEq, Eq, Structural)]
pub struct CodecEntry {
    pub decoder: Option<DecoderFactory>,
    pub encoder: Option<EncoderFactory>,
}

/// The entry of the PCM codecs: both sides.
pub open spec fn pcm_entry() -> CodecEntry {
    CodecEntry { decoder: Some(DecoderFactory::Pcm), encoder: Some(EncoderFactory::Pcm) }
}

/// The entry of the raw YUV codec: both sides.
pub open spec fn yuv_entry() -> CodecEntry {
    CodecEntry { decoder: Some(DecoderFactory::Yuv), encoder: Some(EncoderFactory::Yuv) }
}

/// The map of no codecs.
pub open spec fn no_codecs() -> Map<Seq<char>, CodecEntry> {
    Map::empty()
}

/// Codec entries by codec name, in a rustc-hash map.
#[verifier::external_body]
pub struct CodecFactoryMapper {
    map: FxHashMap<&'static str, CodecEntry>,
}

/// What a codec map holds: each registered name with its entry.
pub uninterp spec fn codec_factories(m: CodecFactoryMapper) -> Map<Seq<char>, CodecEntry>;

impl CodecFactoryMapper {
    /// `FxHashMap::default`: a map that holds nothing.
    #[verifier::external_body]
    pub(crate) fn empty() -> (m: Self)
        ensures
            codec_factories(m) == no_codecs(),
    {
        CodecFactoryMapper { map: FxHashMap::default() }
    }

    /// `HashMap::insert`: the name maps to the entry afterwards, in place of any earlier one;
    /// every other name keeps its entry.
    #[verifier::external_body]
    pub(crate) fn insert(&mut self, name: &'static str, entry: CodecEntry)
        ensures
            codec_factories(*final(self)) == codec_factories(*old(self)).insert(name@, entry),
    {
        self.map.insert(name, entry);
    }

    /// `HashMap::get`, with the entry copied out: the entry of the name, where it has one.
    #[verifier::external_body]
    fn entry(&self, name: &str) -> (r: Option<CodecEntry>)
        ensures
            codec_factories(*self).dom().contains(name@) ==> r == Some(codec_factories(*self)[name@]),
            !codec_factories(*self).dom().contains(name@) ==> r is None,
    {
        self.map.get(name).copied()
    }

    /// Whether a codec of this name is registered.
    pub fn contains(&self, name: &str) -> (b: bool)
        ensures
            b == codec_factories(*self).dom().contains(name@),
    {
        self.entry(name).is_some()
    }

    /// Checks the codec that the audio options name, if any: `UnknownCodec` where no codec of
    /// that name is registered.
    pub fn check_audio_codec(&self, base: &BaseOptions) -> (r: Result<(), Error>)
        ensures
            match codec_in_options(texts(base.audio@)) {
                None => r is Ok,
                Some(c) => if codec_factories(*self).dom().contains(c) {
                    r is Ok
                } else {
                    r == Err::<(), Error>(Error::UnknownCodec)
                },
            },
    {
        match base.audio_codec() {
            None => Ok(()),
            Some(c) => if self.contains(c.as_str()) {
                Ok(())
            } else {
                Err(Error::UnknownCodec)
            },
        }
    }

    /// Opens the decoder of the named codec for a stream of `format`: `UnknownCodec` where no
    /// codec has the name, `NoDecoder` where it has no decoder, else what its factory opens.
    pub fn decoder_for(&self, name: &str, format: &Format) -> (r: Result<CodecDecoder, Error>)
        ensures
            !codec_factories(*self).dom().contains(name@) ==> r == Err::<CodecDecoder, Error>(Error::UnknownCodec),
            codec_factories(*self).dom().contains(name@) ==> r == match codec_factories(*self)[name@].decoder {
                None => Err(Error::NoDecoder),
                Some(f) => decoder_opened(f, *format),
            },
    {
        match self.entry(name) {
            None => Err(Error::UnknownCodec),
            Some(entry) => match entry.decoder {
                None => Err(Error::NoDecoder),
                Some(f) => f.open(format),
            },
        }
    }

    /// Opens the encoder of the named codec for output in `format`: `UnknownCodec` where no
    /// codec has the name, `NoEncoder` where it has no encoder, else what its factory opens.
    pub fn encoder_for(&self, name: &str, format: &Format) -> (r: Result<CodecEncoder, Error>)
        ensures
            !codec_factories(*self).dom().contains(name@) ==> r == Err::<CodecEncoder, Error>(Error::UnknownCodec),
            codec_factories(*self).dom().contains(name@) ==> r == match codec_factories(*self)[name@].encoder {
                None => Err(Error::NoEncoder),
                Some(f) => encoder_opened(f, *format),
            },
    {
        match self.entry(name) {
            None => Err(Error::UnknownCodec),
            Some(entry) => match entry.encoder {
                None => Err(Error::NoEncoder),
                Some(f) => f.open(format),
            },
        }
    }
}

/// Registers the PCM codecs, `pcm_s16le`, `pcm_s24le` and `pcm_f32le`, each with a PCM
/// decoder and a PCM encoder.
pub fn register_pcm_codecs(codec_mapper: &mut CodecFactoryMapper)
    ensures
        codec_factories(*final(codec_mapper)) == codec_factories(*old(codec_mapper)).insert(
            "pcm_s16le"@,
            pcm_entry(),
        ).insert("pcm_s24le"@, pcm_entry()).insert("pcm_f32le"@, pcm_entry()),
{
    let entry = CodecEntry { decoder: Some(DecoderFactory::Pcm), encoder: Some(EncoderFactory::Pcm) };
    codec_mapper.insert("pcm_s16le", entry);
    codec_mapper.insert("pcm_s24le", entry);
    codec_mapper.insert("pcm_f32le", entry);
}

/// Registers the raw YUV codec, `yuv420p`, with its decoder and its encoder.
pub fn register_yuv_codecs(codec_mapper: &mut CodecFactoryMapper)
    ensures
        codec_factories(*final(codec_mapper)) == codec_factories(*old(codec_mapper)).insert("yuv420p"@, yuv_entry()),
{
    codec_mapper.insert("yuv420p", CodecEntry { decoder: Some(DecoderFactory::Yuv), encoder: Some(EncoderFactory::Yuv) });
}

/// Every codec this library has: the PCM codecs and raw YUV.
pub fn register_codecs() -> (m: CodecFactoryMapper)
    ensures
        codec_factories(m) == no_codecs().insert("pcm_s16le"@, pcm_entry()).insert(
            "pcm_s24le"@,
            pcm_entry(),
        ).insert("pcm_f32le"@, pcm_entry()).insert("yuv420p"@, yuv_entry()),
{
    let mut mapper = CodecFactoryMapper::empty();
    register_pcm_codecs(&mut mapper);
    register_yuv_codecs(&mut mapper);
    mapper
}

} // verus!
