use crate::media::Channels;
use vstd::prelude::*;

verus! {

/// `a * b`, or `u32::MAX` where the product does not fit.
pub open spec fn sat_mul(a: int, b: int) -> int {
    if a * b <= u32::MAX { a * b } else { u32::MAX as int }
}

/// Multiplies, saturating at `u32::MAX`.
pub fn saturating_mul_u32(a: u32, b: u32) -> (r: u32)
    ensures
        r == sat_mul(a as int, b as int),
{
    match a.checked_mul(b) {
        Some(p) => p,
        None => u32::MAX,
    }
}

/// The PCM layout of a WAVE stream.
#[derive(Debug, Clone, Copy, PartialEq, Eq)]
pub struct WavFormat {
    pub channels: Channels,
    pub sample_rate: u32,
    pub bit_depth: u16,
    pub format_code: u16,
}

impl WavFormat {
    /// Bytes of one frame: one sample of every channel.
    pub open spec fn spec_block_align(&self) -> int {
        self.channels.spec_count() * (self.bit_depth / 8)
    }

    /// Bytes per second, saturating at `u32::MAX` at each multiplication.
    pub open spec fn spec_byte_rate(&self) -> int {
        sat_mul(sat_mul(self.sample_rate as int, self.channels.spec_count() as int), (self.bit_depth / 8) as int)
    }

    /// The codec name of the samples: 32-bit IEEE float, 24-bit or else 16-bit integer PCM.
    pub open spec fn spec_codec(&self) -> Seq<char> {
        if self.format_code == 3 {
            seq!['p', 'c', 'm', '_', 'f', '3', '2', 'l', 'e']
        } else if self.bit_depth == 24 {
            seq!['p', 'c', 'm', '_', 's', '2', '4', 'l', 'e']
        } else {
            seq!['p', 'c', 'm', '_', 's', '1', '6', 'l', 'e']
        }
    }

    /// Bytes of one sample.
    pub fn bytes_per_sample(&self) -> (n: u16)
        ensures
            n == self.bit_depth / 8,
    {
        self.bit_depth / 8
    }

    /// Bytes of one frame, where that fits 16 bits.
    pub fn block_align(&self) -> (n: u16)
        requires
            self.spec_block_align() <= u16::MAX,
        ensures
            n == self.spec_block_align(),
    {
        let c = self.channels.count() as u16;
        let b = self.bit_depth / 8;
        assert(c * b <= u16::MAX);
        c * b
    }

    /// Bytes of one frame.
    pub fn bytes_per_frame(&self) -> (n: usize)
        ensures
            n == self.spec_block_align(),
    {
        let c = self.channels.count() as usize;
        let b = (self.bit_depth / 8) as usize;
        assert(c * b <= 255 * 8191) by (nonlinear_arith)
            requires
                c <= 255,
                b <= 8191,
        ;
        c * b
    }

    /// Bytes per second.
    pub fn byte_rate(&self) -> (n: u32)
        ensures
            n == self.spec_byte_rate(),
    {
        let r = saturating_mul_u32(self.sample_rate, self.channels.count() as u32);
        saturating_mul_u32(r, (self.bit_depth / 8) as u32)
    }

    /// The codec name of the samples.
    pub fn to_codec_string(&self) -> (s: &'static str)
        ensures
            s@ == self.spec_codec(),
    {
        if self.format_code == 3 {
            proof {
                reveal_strlit("pcm_f32le");
            }
            "pcm_f32le"
        } else if self.bit_depth == 24 {
            proof {
                reveal_strlit("pcm_s24le");
            }
            "pcm_s24le"
        } else {
            proof {
                reveal_strlit("pcm_s16le");
            }
            "pcm_s16le"
        }
    }
}

} // verus!
