use super::frame::{AudioFrame, Frame};
use crate::container::wav::format::WavFormat;
use crate::error::Error;
use crate::media::{Channels, Packet, Time};
use vstd::prelude::*;

verus! {

/// The PCM decoder: every packet is one frame of the same samples.
#[derive(Debug, Clone, Copy)]
pub struct PcmDecoder {
    pub sample_rate: u32,
    pub channels: Channels,
    pub bit_depth: u16,
}

impl PcmDecoder {
    /// A decoder for samples of this rate, layout and depth.
    pub fn new(sample_rate: u32, channels: Channels, bit_depth: u16) -> (d: Self)
        ensures
            d.sample_rate == sample_rate && d.channels == channels && d.bit_depth == bit_depth,
    {
        PcmDecoder { sample_rate, channels, bit_depth }
    }

    /// A decoder for a stream format, at its bit depth.
    pub fn from_format(format: &WavFormat) -> (d: Self)
        ensures
            d.sample_rate == format.sample_rate && d.channels == format.channels && d.bit_depth == format.bit_depth,
    {
        Self::new(format.sample_rate, format.channels, format.bit_depth)
    }

    /// A decoder for a WAVE format, at the depth of its whole bytes per sample.
    pub fn from_wav(wav: &WavFormat) -> (d: Self)
        ensures
            d.sample_rate == wav.sample_rate && d.channels == wav.channels,
            d.bit_depth == (((wav.bit_depth / 8) * 8) as u8) as u16,
    {
        let bits = ((wav.bytes_per_sample() * 8) as u8) as u16;
        Self::new(wav.sample_rate, wav.channels, bits)
    }

    /// One frame holding the packet's samples; none for an empty packet.
    pub fn decode(&mut self, packet: Packet) -> (r: Result<Vec<Frame>, Error>)
        ensures
            *final(self) == *old(self),
            packet.data@.len() == 0 ==> (r matches Ok(v) && v@.len() == 0),
            packet.data@.len() > 0 ==> (r matches Ok(v) && v@.len() == 1 && (v@[0] matches Frame::Audio(a) && {
                &&& a.data@ == packet.data@
                &&& a.sample_rate == old(self).sample_rate
                &&& a.channels == old(self).channels
                &&& a.bit_depth == old(self).bit_depth
                &&& a.stream_id == packet.stream_id
                &&& a.pts == packet.pts
            })),
    {
        if packet.is_empty() {
            return Ok(Vec::new());
        }
        let pts = packet.pts;
        let stream_id = packet.stream_id;
        let audio = AudioFrame {
            data: packet.data,
            sample_rate: self.sample_rate,
            channels: self.channels,
            bit_depth: self.bit_depth,
            stream_id,
            pts,
        };
        let mut v: Vec<Frame> = Vec::new();
        v.push(Frame::Audio(audio));
        Ok(v)
    }

    /// Nothing is held back.
    pub fn finish(&mut self) -> (r: Result<Vec<Frame>, Error>)
        ensures
            r matches Ok(v) && v@.len() == 0,
    {
        Ok(Vec::new())
    }
}

/// The PCM encoder: packs frames into packets, at another bit depth where one is set.
#[derive(Debug, Clone, Copy)]
pub struct PcmEncoder {
    pub sample_rate: u32,
    pub target_bit_depth: Option<u16>,
}

impl PcmEncoder {
    /// An encoder at this rate that keeps the frames' depth.
    pub fn new(sample_rate: u32) -> (e: Self)
        ensures
            e.sample_rate == sample_rate && e.target_bit_depth is None,
    {
        PcmEncoder { sample_rate, target_bit_depth: None }
    }

    /// An encoder for a stream format: its rate and its depth.
    pub fn from_format(format: &WavFormat) -> (e: Self)
        ensures
            e.sample_rate == format.sample_rate && e.target_bit_depth == Some(format.bit_depth),
    {
        Self::new(format.sample_rate).with_bit_depth(format.bit_depth)
    }

    /// The same encoder, writing samples of `bit_depth` bits.
    pub fn with_bit_depth(self, bit_depth: u16) -> (e: Self)
        ensures
            e.sample_rate == self.sample_rate && e.target_bit_depth == Some(bit_depth),
    {
        PcmEncoder { target_bit_depth: Some(bit_depth), ..self }
    }

    /// The WAVE format of samples at `bit_depth`: IEEE float at 32 bits, integer PCM below.
    pub fn make_wav_format(bit_depth: u16, channels: Channels, sample_rate: u32) -> (f: WavFormat)
        ensures
            f == (WavFormat {
                channels,
                sample_rate,
                bit_depth,
                format_code: if bit_depth == 32 { 3 } else { 1 },
            }),
    {
        let format_code: u16 = if bit_depth == 32 { 3 } else { 1 };
        WavFormat { channels, sample_rate, bit_depth, format_code }
    }

    /// The packet of an audio frame whose samples, at the target depth, are `data`: on the
    /// stream and at the time of the frame, in ticks of one sample (`ZeroTimeBase` at a rate
    /// of zero).
    pub fn packet_for(&self, frame: &AudioFrame, data: Vec<u8>) -> (r: Result<Packet, Error>)
        ensures
            self.sample_rate == 0 ==> r == Err::<Packet, Error>(Error::ZeroTimeBase),
            self.sample_rate != 0 ==> (r matches Ok(p) && p.data@ == data@ && p.stream_id == frame.stream_id && p.time
                == Time { num: 1, den: self.sample_rate } && p.pts == frame.pts && !p.keyframe),
    {
        let time = Time::checked(1, self.sample_rate)?;
        Ok(Packet::new(data, frame.stream_id, time).with_pts(frame.pts))
    }

    /// Encodes a frame that needs no conversion: its samples as they are. Video frames are
    /// `WrongFrameKind`.
    pub fn encode_unconverted(&mut self, frame: Frame) -> (r: Result<Vec<Packet>, Error>)
        requires
            old(self).target_bit_depth is None,
        ensures
            *final(self) == *old(self),
            frame is Video ==> r == Err::<Vec<Packet>, Error>(Error::WrongFrameKind),
            frame matches Frame::Audio(a) ==> {
                &&& old(self).sample_rate == 0 ==> r == Err::<Vec<Packet>, Error>(Error::ZeroTimeBase)
                &&& old(self).sample_rate != 0 ==> (r matches Ok(v) && v@.len() == 1 && v@[0].data@ == a.data@
                    && v@[0].stream_id == a.stream_id && v@[0].time == Time { num: 1, den: old(self).sample_rate }
                    && v@[0].pts == a.pts && !v@[0].keyframe)
            },
    {
        match frame {
            Frame::Audio(a) => {
                let data = a.data.clone();
                let p = self.packet_for(&a, data)?;
                let mut v: Vec<Packet> = Vec::new();
                v.push(p);
                Ok(v)
            },
            Frame::Video(_) => Err(Error::WrongFrameKind),
        }
    }

    /// Nothing is held back.
    pub fn finish(&mut self) -> (r: Result<Vec<Packet>, Error>)
        ensures
            r matches Ok(v) && v@.len() == 0,
    {
        Ok(Vec::new())
    }
}

} // verus!
