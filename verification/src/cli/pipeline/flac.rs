use crate::container::flac::format::FlacFormat;
use crate::container::wav::format::WavFormat;
use crate::error::Error;
use crate::media::{AudioFormat, Channels};
use crate::text::str_eq;
use vstd::prelude::*;

verus! {

/// Where the FLAC pipeline reads its samples from.
#[derive(Debug, Clone, Copy, PartialEq, Eq)]
pub enum FlacInput {
    /// A WAVE file, through the WAVE demuxer.
    Wav,
    /// Raw PCM in the source format, through the raw PCM demuxer.
    Raw,
}

/// What the FLAC pipeline does: read the input as `input` in `source` format, and write a FLAC
/// file in `target` format, converting the samples where `convert`.
#[derive(Debug, Clone, Copy)]
pub struct FlacPlan {
    pub input: FlacInput,
    pub source: FlacFormat,
    pub target: FlacFormat,
    pub convert: bool,
}

/// The sample format a bit depth gives.
pub open spec fn flac_audio_format(f: FlacFormat) -> AudioFormat {
    crate::container::flac::format::audio_format_of(f.bit_depth)
}

/// Decides the FLAC pipeline for an input with extension `input_ext`: a WAVE input gives its
/// channels, rate and depth as the source format (its `wav_format`), any other input keeps the
/// default; a codec name sets the target depth (`UnsupportedFlacCodec` for one it does not
/// know); only WAVE and raw inputs can be read (`UnsupportedFlacInput`); the samples are
/// converted where the target's sample format differs.
pub fn run(input_ext: &str, wav_format: Option<WavFormat>, codec: Option<&str>) -> (r: Result<FlacPlan, Error>)
    requires
        input_ext@ == "wav"@ ==> wav_format is Some,
    ensures
        ({
            let source = if input_ext@ == "wav"@ {
                FlacFormat {
                    channels: wav_format->0.channels,
                    sample_rate: wav_format->0.sample_rate,
                    bit_depth: wav_format->0.bit_depth,
                }
            } else {
                (FlacFormat { channels: Channels::Stereo, sample_rate: 44100, bit_depth: 16 })
            };
            let target_depth = match codec {
                None => Some(source.bit_depth),
                Some(c) => if c@ == "pcm_s16le"@ {
                    Some(16u16)
                } else if c@ == "pcm_s24le"@ {
                    Some(24u16)
                } else if c@ == "pcm_f32le"@ {
                    Some(32u16)
                } else {
                    None
                },
            };
            &&& target_depth is None ==> r == Err::<FlacPlan, Error>(Error::UnsupportedFlacCodec)
            &&& target_depth is Some && input_ext@ != "wav"@ && input_ext@ != "raw"@ ==> r == Err::<FlacPlan, Error>(
                Error::UnsupportedFlacInput,
            )
            &&& (target_depth is Some && (input_ext@ == "wav"@ || input_ext@ == "raw"@)) ==> (r matches Ok(p) && {
                let target = FlacFormat { bit_depth: target_depth->0, ..source };
                &&& p.input == (if input_ext@ == "wav"@ { FlacInput::Wav } else { FlacInput::Raw })
                &&& p.source == source
                &&& p.target == target
                &&& p.convert == (flac_audio_format(source) != flac_audio_format(target))
            })
        }),
{
    proof {
        reveal_strlit("wav");
        reveal_strlit("raw");
        assert("wav"@ != "raw"@) by {
            assert("wav"@[0] != "raw"@[0]);
        }
    }
    let is_wav = str_eq(input_ext, "wav");
    let is_raw = str_eq(input_ext, "raw");
    let mut format = FlacFormat::default();
    if is_wav {
        if let Some(w) = wav_format {
            format = FlacFormat { channels: w.channels, sample_rate: w.sample_rate, bit_depth: w.bit_depth };
        }
    }
    let mut target = format;
    if let Some(c) = codec {
        target.apply_codec(c)?;
    }
    let input = if is_wav {
        FlacInput::Wav
    } else if is_raw {
        FlacInput::Raw
    } else {
        return Err(Error::UnsupportedFlacInput);
    };
    let convert = !same_audio_format(format.audio_format(), target.audio_format());
    Ok(FlacPlan { input, source: format, target, convert })
}

/// Whether two sample formats are the same.
fn same_audio_format(a: AudioFormat, b: AudioFormat) -> (r: bool)
    ensures
        r == (a == b),
{
    match (a, b) {
        (AudioFormat::PCM16, AudioFormat::PCM16) => true,
        (AudioFormat::PCM24, AudioFormat::PCM24) => true,
        (AudioFormat::PCM32, AudioFormat::PCM32) => true,
        _ => false,
    }
}

} // verus!
