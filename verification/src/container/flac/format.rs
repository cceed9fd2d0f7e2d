use crate::container::raw::format::RawPcmFormat;
use crate::error::Error;
use crate::media::{AudioFormat, Channels};
use crate::metadata::Metadata;
use vstd::prelude::*;

verus! {

/// The layout of the samples of a FLAC stream.
#[derive(Debug, Clone, Copy, PartialEq, Eq)]
pub struct FlacFormat {
    pub channels: Channels,
    pub sample_rate: u32,
    pub bit_depth: u16,
}

impl Default for FlacFormat {
    /// Stereo 16-bit at 44.1 kHz.
    fn default() -> (f: Self)
        ensures
            f == (FlacFormat { channels: Channels::Stereo, sample_rate: 44100, bit_depth: 16 }),
    {
        Self { channels: Channels::Stereo, sample_rate: 44100, bit_depth: 16 }
    }
}

/// The PCM sample format for a bit depth: 24 and 32 bits have their own, all others are
/// taken as 16.
pub open spec fn audio_format_of(bit_depth: u16) -> AudioFormat {
    if bit_depth == 24 {
        AudioFormat::PCM24
    } else if bit_depth == 32 {
        AudioFormat::PCM32
    } else {
        AudioFormat::PCM16
    }
}

impl FlacFormat {
    /// Bytes of one frame: one sample of every channel.
    pub open spec fn spec_block_align(&self) -> int {
        self.channels.spec_count() * (self.bit_depth / 8)
    }

    /// The format with these fields.
    pub fn new(channels: Channels, sample_rate: u32, bit_depth: u16) -> (f: Self)
        ensures
            f == (FlacFormat { channels, sample_rate, bit_depth }),
    {
        Self { channels, sample_rate, bit_depth }
    }

    /// The codec name: always `flac`.
    pub fn to_codec_string(&self) -> (s: &'static str)
        ensures
            s@ == "flac"@,
    {
        "flac"
    }

    /// Bytes of one frame.
    pub fn bytes_per_frame(&self) -> (n: usize)
        ensures
            n == self.spec_block_align(),
    {
        let c = self.channels.count() as usize;
        let b = (self.bit_depth / 8) as usize;
        assert(c * b <= 255 * 8191) by (nonlinear_arith)
            requires
                c <= 255,
                b <= 8191,
        ;
        c * b
    }

    /// Bytes of one frame, where that fits 16 bits.
    pub fn block_align(&self) -> (n: u16)
        requires
            self.spec_block_align() <= u16::MAX,
        ensures
            n == self.spec_block_align(),
    {
        let c = self.channels.count() as u16;
        let b = self.bit_depth / 8;
        c * b
    }

    /// The same layout as raw PCM.
    pub fn to_raw_format(&self) -> (r: RawPcmFormat)
        ensures
            r == (RawPcmFormat { channels: self.channels, sample_rate: self.sample_rate, bit_depth: self.bit_depth }),
    {
        RawPcmFormat { channels: self.channels, sample_rate: self.sample_rate, bit_depth: self.bit_depth }
    }

    /// The PCM sample format of the bit depth.
    pub fn audio_format(&self) -> (a: AudioFormat)
        ensures
            a == audio_format_of(self.bit_depth),
    {
        match self.bit_depth {
            24 => AudioFormat::PCM24,
            32 => AudioFormat::PCM32,
            _ => AudioFormat::PCM16,
        }
    }

    /// Sets the bit depth a PCM codec name asks for: 16 for `pcm_s16le`, 24 for `pcm_s24le`,
    /// 32 for `pcm_f32le`; any other name fails with `UnsupportedFlacCodec` and changes nothing.
    pub fn apply_codec(&mut self, codec: &str) -> (r: Result<(), Error>)
        ensures
            codec@ == "pcm_s16le"@ ==> r is Ok && *final(self) == (FlacFormat { bit_depth: 16, ..*old(self) }),
            codec@ == "pcm_s24le"@ ==> r is Ok && *final(self) == (FlacFormat { bit_depth: 24, ..*old(self) }),
            codec@ == "pcm_f32le"@ ==> r is Ok && *final(self) == (FlacFormat { bit_depth: 32, ..*old(self) }),
            codec@ != "pcm_s16le"@ && codec@ != "pcm_s24le"@ && codec@ != "pcm_f32le"@ ==> r == Err::<(), Error>(
                Error::UnsupportedFlacCodec,
            ) && *final(self) == *old(self),
    {
        let c = String::from_str(codec);
        proof {
            reveal_strlit("pcm_s16le");
            reveal_strlit("pcm_s24le");
            reveal_strlit("pcm_f32le");
            assert("pcm_s24le"@[5] != "pcm_s16le"@[5]);
            assert("pcm_f32le"@[4] != "pcm_s16le"@[4]);
            assert("pcm_f32le"@[4] != "pcm_s24le"@[4]);
        }
        if c == String::from_str("pcm_s16le") {
            self.bit_depth = 16;
        } else if c == String::from_str("pcm_s24le") {
            self.bit_depth = 24;
        } else if c == String::from_str("pcm_f32le") {
            self.bit_depth = 32;
        } else {
            return Err(Error::UnsupportedFlacCodec);
        }
        Ok(())
    }
}

/// Tags of a FLAC file.
#[derive(Debug)]
pub struct FlacMetadata {
    fields: Metadata,
}

impl FlacMetadata {
    /// The tags.
    pub closed spec fn spec_fields(&self) -> Metadata {
        self.fields
    }

    /// No tags.
    pub fn new() -> (m: Self)
        ensures
            m.spec_fields().size() == 0,
            forall|k: Seq<char>| m.spec_fields().get_spec(k) is None,
    {
        Self { fields: Metadata::new() }
    }

    /// Stores `value` under `key`, replacing what was stored there; the tags are not empty
    /// afterwards.
    pub fn set(&mut self, key: &str, value: String)
        ensures
            final(self).spec_fields().get_spec(key@) == Some(value@),
            final(self).spec_fields().size() > 0,
            forall|k: Seq<char>| k != key@ ==> final(self).spec_fields().get_spec(k) == old(self).spec_fields().get_spec(k),
    {
        self.fields.set(key, value);
        proof {
            self.fields.lemma_stored_means_nonempty(key@);
        }
    }

    /// The value stored under `key`, if any.
    pub fn get(&self, key: &str) -> (r: Option<&String>)
        ensures
            match self.spec_fields().get_spec(key@) {
                Some(v) => r matches Some(s) && s@ == v,
                None => r is None,
            },
    {
        self.fields.get(key)
    }

    /// All tags.
    pub fn all_fields(&self) -> (r: &[(String, String)])
        ensures
            r@ == self.spec_fields().entries_spec(),
            forall|k: Seq<char>| #[trigger] self.spec_fields().get_spec(k) == crate::metadata::lookup(r@, k),
    {
        self.fields.all_fields()
    }

    /// A tag stored under some key means the tags are not empty.
    pub proof fn lemma_stored_means_nonempty(&self, key: Seq<char>)
        ensures
            self.spec_fields().get_spec(key) is Some ==> self.spec_fields().size() > 0,
    {
        self.fields.lemma_stored_means_nonempty(key);
    }

    /// Whether no tag is stored.
    pub fn is_empty(&self) -> (b: bool)
        ensures
            b == (self.spec_fields().size() == 0),
    {
        self.fields.is_empty()
    }
}

} // verus!
