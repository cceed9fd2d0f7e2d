use super::format::WavFormat;
use crate::error::Error;
use crate::media::Channels;
use vstd::prelude::*;

verus! {

/// The fields of a `fmt ` chunk.
#[derive(Debug, Clone, Copy, PartialEq, Eq)]
pub struct WavHeader {
    pub channels: Channels,
    pub sample_rate: u32,
    pub byte_rate: u32,
    pub block_align: u16,
    pub bits_per_sample: u16,
    pub format_code: u16,
}

impl Default for WavHeader {
    /// Mono 16-bit PCM at 44.1 kHz, with rate and alignment unset.
    fn default() -> (h: Self)
        ensures
            h == WavHeader::spec_default(),
    {
        WavHeader {
            channels: Channels::Mono,
            sample_rate: 44100,
            byte_rate: 0,
            block_align: 0,
            bits_per_sample: 16,
            format_code: 1,
        }
    }
}

impl WavHeader {
    /// What a header holds before a `fmt ` chunk is read.
    pub open spec fn spec_default() -> WavHeader {
        WavHeader {
            channels: Channels::Mono,
            sample_rate: 44100,
            byte_rate: 0,
            block_align: 0,
            bits_per_sample: 16,
            format_code: 1,
        }
    }

    /// The first check that fails, in the order common, layout, codec; `None` when all pass.
    pub open spec fn spec_validation_error(&self) -> Option<Error> {
        if self.channels.spec_count() == 0 {
            Some(Error::ZeroChannels)
        } else if self.sample_rate == 0 {
            Some(Error::ZeroSampleRate)
        } else if self.block_align == 0 {
            Some(Error::ZeroBlockAlign)
        } else if self.byte_rate == 0 {
            Some(Error::ZeroByteRate)
        } else if self.format_code == 1 || self.format_code == 3 {
            if self.bits_per_sample == 0 {
                Some(Error::ZeroBitsPerSample)
            } else if self.bits_per_sample % 8 != 0 {
                Some(Error::BitsNotByteMultiple)
            } else {
                None
            }
        } else if self.format_code == 0x11 {
            if self.bits_per_sample != 4 {
                Some(Error::ImaAdpcmBits)
            } else {
                None
            }
        } else {
            Some(Error::UnsupportedFormatCode(self.format_code))
        }
    }

    /// The stream format the header describes.
    pub open spec fn spec_to_format(&self) -> WavFormat {
        WavFormat {
            channels: self.channels,
            sample_rate: self.sample_rate,
            bit_depth: self.bits_per_sample,
            format_code: self.format_code,
        }
    }

    /// The stream format the header describes.
    pub fn to_format(&self) -> (f: WavFormat)
        ensures
            f == self.spec_to_format(),
    {
        WavFormat {
            channels: self.channels,
            sample_rate: self.sample_rate,
            bit_depth: self.bits_per_sample,
            format_code: self.format_code,
        }
    }

    /// Checks that the header describes a stream that can be read.
    pub fn validate(&self) -> (r: Result<(), Error>)
        ensures
            match self.spec_validation_error() {
                Some(e) => r == Err::<(), Error>(e),
                None => r is Ok,
            },
    {
        self.validate_common()?;
        self.validate_layout()?;
        self.validate_codec()
    }

    fn validate_common(&self) -> (r: Result<(), Error>)
        ensures
            self.channels.spec_count() == 0 ==> r == Err::<(), Error>(Error::ZeroChannels),
            self.channels.spec_count() != 0 && self.sample_rate == 0 ==> r == Err::<(), Error>(Error::ZeroSampleRate),
            self.channels.spec_count() != 0 && self.sample_rate != 0 ==> r is Ok,
    {
        if self.channels.count() == 0 {
            return Err(Error::ZeroChannels);
        }
        if self.sample_rate == 0 {
            return Err(Error::ZeroSampleRate);
        }
        Ok(())
    }

    fn validate_layout(&self) -> (r: Result<(), Error>)
        ensures
            self.block_align == 0 ==> r == Err::<(), Error>(Error::ZeroBlockAlign),
            self.block_align != 0 && self.byte_rate == 0 ==> r == Err::<(), Error>(Error::ZeroByteRate),
            self.block_align != 0 && self.byte_rate != 0 ==> r is Ok,
    {
        if self.block_align == 0 {
            return Err(Error::ZeroBlockAlign);
        }
        if self.byte_rate == 0 {
            return Err(Error::ZeroByteRate);
        }
        Ok(())
    }

    fn validate_codec(&self) -> (r: Result<(), Error>)
        ensures
            (self.format_code == 1 || self.format_code == 3) ==> r == self.spec_pcm_result(),
            self.format_code == 0x11 ==> r == (if self.bits_per_sample != 4 {
                Err::<(), Error>(Error::ImaAdpcmBits)
            } else {
                Ok::<(), Error>(())
            }),
            !(self.format_code == 1 || self.format_code == 3 || self.format_code == 0x11) ==> r == Err::<
                (),
                Error,
            >(Error::UnsupportedFormatCode(self.format_code)),
    {
        match self.format_code {
            1 | 3 => self.validate_pcm(),
            0x11 => self.validate_ima_adpcm(),
            code => Err(Error::UnsupportedFormatCode(code)),
        }
    }

    /// The outcome of the PCM checks.
    pub open spec fn spec_pcm_result(&self) -> Result<(), Error> {
        if self.bits_per_sample == 0 {
            Err(Error::ZeroBitsPerSample)
        } else if self.bits_per_sample % 8 != 0 {
            Err(Error::BitsNotByteMultiple)
        } else {
            Ok(())
        }
    }

    fn validate_pcm(&self) -> (r: Result<(), Error>)
        ensures
            r == self.spec_pcm_result(),
    {
        if self.bits_per_sample == 0 {
            return Err(Error::ZeroBitsPerSample);
        }
        if self.bits_per_sample % 8 != 0 {
            return Err(Error::BitsNotByteMultiple);
        }
        Ok(())
    }

    fn validate_ima_adpcm(&self) -> (r: Result<(), Error>)
        ensures
            r == (if self.bits_per_sample != 4 {
                Err::<(), Error>(Error::ImaAdpcmBits)
            } else {
                Ok::<(), Error>(())
            }),
    {
        if self.bits_per_sample != 4 {
            return Err(Error::ImaAdpcmBits);
        }
        Ok(())
    }
}

} // verus!
