use crate::container::wav::format::{sat_mul, saturating_mul_u32};
use crate::media::Channels;
use crate::metadata::Metadata;
use vstd::prelude::*;

verus! {

/// The layout of headerless PCM data, which the user has to give.
#[derive(Debug, Clone, Copy, PartialEq, Eq)]
pub struct RawPcmFormat {
    pub channels: Channels,
    pub sample_rate: u32,
    pub bit_depth: u16,
}

impl RawPcmFormat {
    /// Bytes of one frame: one sample of every channel.
    pub open spec fn spec_block_align(&self) -> int {
        self.channels.spec_count() * (self.bit_depth / 8)
    }

    /// The format with these fields.
    pub fn new(channels: Channels, sample_rate: u32, bit_depth: u16) -> (f: Self)
        ensures
            f == (RawPcmFormat { channels, sample_rate, bit_depth }),
    {
        Self { channels, sample_rate, bit_depth }
    }

    /// Stereo 16-bit PCM at 44.1 kHz.
    pub fn default_pcm16() -> (f: Self)
        ensures
            f == (RawPcmFormat { channels: Channels::Stereo, sample_rate: 44100, bit_depth: 16 }),
    {
        Self { channels: Channels::Stereo, sample_rate: 44100, bit_depth: 16 }
    }

    /// The codec name: always `pcm`.
    pub fn to_codec_string(&self) -> (s: &'static str)
        ensures
            s@ == "pcm"@,
    {
        "pcm"
    }

    /// Bytes of one frame.
    pub fn bytes_per_frame(&self) -> (n: usize)
        ensures
            n == self.spec_block_align(),
    {
        let c = self.channels.count() as usize;
        let b = (self.bit_depth / 8) as usize;
        assert(c * b <= 255 * 8191) by (nonlinear_arith)
            requires
                c <= 255,
                b <= 8191,
        ;
        b * c
    }

    /// Bytes of one frame, where that fits 16 bits.
    pub fn block_align(&self) -> (n: u16)
        requires
            self.spec_block_align() <= u16::MAX,
        ensures
            n == self.spec_block_align(),
    {
        let c = self.channels.count() as u16;
        let b = self.bit_depth / 8;
        c * b
    }

    /// Bytes per second, saturating at `u32::MAX` at each multiplication.
    pub fn byte_rate(&self) -> (n: u32)
        ensures
            n == sat_mul(sat_mul(self.sample_rate as int, self.channels.spec_count() as int), (self.bit_depth / 8) as int),
    {
        let r = saturating_mul_u32(self.sample_rate, self.channels.count() as u32);
        saturating_mul_u32(r, (self.bit_depth / 8) as u32)
    }
}

impl Default for RawPcmFormat {
    /// Stereo 16-bit PCM at 44.1 kHz.
    fn default() -> (f: Self)
        ensures
            f == (RawPcmFormat { channels: Channels::Stereo, sample_rate: 44100, bit_depth: 16 }),
    {
        Self::default_pcm16()
    }
}

/// Tags attached to raw PCM data.
#[derive(Debug)]
pub struct RawPcmMetadata {
    fields: Metadata,
}

impl RawPcmMetadata {
    /// The tags.
    pub closed spec fn spec_fields(&self) -> Metadata {
        self.fields
    }

    /// No tags.
    pub fn new() -> (m: Self)
        ensures
            m.spec_fields().size() == 0,
            forall|k: Seq<char>| m.spec_fields().get_spec(k) is None,
    {
        Self { fields: Metadata::new() }
    }

    /// Stores `value` under `key`, replacing what was stored there.
    pub fn set(&mut self, key: &str, value: String)
        ensures
            final(self).spec_fields().get_spec(key@) == Some(value@),
            forall|k: Seq<char>| k != key@ ==> final(self).spec_fields().get_spec(k) == old(self).spec_fields().get_spec(k),
    {
        self.fields.set(key, value)
    }

    /// The value stored under `key`, if any.
    pub fn get(&self, key: &str) -> (r: Option<&String>)
        ensures
            match self.spec_fields().get_spec(key@) {
                Some(v) => r matches Some(s) && s@ == v,
                None => r is None,
            },
    {
        self.fields.get(key)
    }

    /// All tags.
    pub fn all_fields(&self) -> (r: &[(String, String)])
        ensures
            r@ == self.spec_fields().entries_spec(),
            forall|k: Seq<char>| #[trigger] self.spec_fields().get_spec(k) == crate::metadata::lookup(r@, k),
    {
        self.fields.all_fields()
    }

    /// Whether no tag is stored.
    pub fn is_empty(&self) -> (b: bool)
        ensures
            b == (self.spec_fields().size() == 0),
    {
        self.fields.is_empty()
    }
}

} // verus!
