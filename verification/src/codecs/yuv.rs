use super::frame::{Frame, VideoFrame};
use crate::container::yuv::format::YuvFormat;
use crate::error::Error;
use crate::media::{Packet, Time, VideoFormat};
use vstd::prelude::*;

verus! {

/// The raw YUV decoder: every packet is one picture.
#[derive(Debug, Clone, Copy)]
pub struct YuvDecoder {
    pub width: u32,
    pub height: u32,
    /// Bits per component of the 4:2:0 pictures.
    pub depth: u8,
}

impl YuvDecoder {
    /// A decoder for pictures of this size and depth.
    pub fn new(width: u32, height: u32, depth: u8) -> (d: Self)
        ensures
            d.width == width && d.height == height && d.depth == depth,
    {
        YuvDecoder { width, height, depth }
    }

    /// A decoder for a video format.
    pub fn from_format(format: &VideoFormat) -> (d: Self)
        ensures
            d.width == format.width && d.height == format.height && d.depth == format.depth,
    {
        Self::new(format.width, format.height, format.depth)
    }

    /// A decoder for the pictures of a raw YUV file.
    pub fn from_yuv(yuv: &YuvFormat) -> (d: Self)
        ensures
            d.width == yuv.width && d.height == yuv.height && d.depth == yuv.depth,
    {
        Self::new(yuv.width, yuv.height, yuv.depth)
    }

    /// One picture holding the packet's bytes, a keyframe where the packet is one; none for an
    /// empty packet.
    pub fn decode(&mut self, packet: Packet) -> (r: Result<Vec<Frame>, Error>)
        ensures
            *final(self) == *old(self),
            packet.data@.len() == 0 ==> (r matches Ok(v) && v@.len() == 0),
            packet.data@.len() > 0 ==> (r matches Ok(v) && v@.len() == 1 && (v@[0] matches Frame::Video(f) && {
                &&& f.data@ == packet.data@
                &&& f.width == old(self).width
                &&& f.height == old(self).height
                &&& f.depth == old(self).depth
                &&& f.keyframe == packet.keyframe
                &&& f.stream_id == packet.stream_id
                &&& f.pts == packet.pts
            })),
    {
        if packet.is_empty() {
            return Ok(Vec::new());
        }
        let keyframe = packet.keyframe;
        let pts = packet.pts;
        let stream_id = packet.stream_id;
        let video = VideoFrame {
            data: packet.data,
            width: self.width,
            height: self.height,
            depth: self.depth,
            keyframe,
            stream_id,
            pts,
        };
        let mut v: Vec<Frame> = Vec::new();
        v.push(Frame::Video(video));
        Ok(v)
    }

    /// Nothing is held back.
    pub fn finish(&mut self) -> (r: Result<Vec<Frame>, Error>)
        ensures
            r matches Ok(v) && v@.len() == 0,
    {
        Ok(Vec::new())
    }
}

/// The raw YUV encoder: every picture becomes one packet holding its bytes as they are, at the
/// time base of the output format's frame rate.
#[derive(Debug, Clone, Copy)]
pub struct YuvEncoder {
    pub format: YuvFormat,
}

impl YuvEncoder {
    /// An encoder for pictures written in `format`.
    pub fn from_format(format: &YuvFormat) -> (e: Self)
        ensures
            e.format == *format,
    {
        YuvEncoder { format: *format }
    }

    /// One packet holding the picture's bytes, with its stream, time and keyframe flag, at a
    /// time base of `1000 / fps_millis`; none for an empty picture. Audio frames are
    /// `WrongFrameKind`; a frame rate of zero is `ZeroTimeBase`.
    pub fn encode(&mut self, frame: Frame) -> (r: Result<Vec<Packet>, Error>)
        ensures
            *final(self) == *old(self),
            frame is Audio ==> r == Err::<Vec<Packet>, Error>(Error::WrongFrameKind),
            frame matches Frame::Video(f) ==> {
                &&& f.data@.len() == 0 ==> (r matches Ok(v) && v@.len() == 0)
                &&& f.data@.len() > 0 && old(self).format.fps_millis == 0 ==> r == Err::<Vec<Packet>, Error>(
                    Error::ZeroTimeBase,
                )
                &&& f.data@.len() > 0 && old(self).format.fps_millis != 0 ==> (r matches Ok(v) && v@.len() == 1 && {
                    &&& v@[0].data@ == f.data@
                    &&& v@[0].stream_id == f.stream_id
                    &&& v@[0].time == Time { num: 1000, den: old(self).format.fps_millis }
                    &&& v@[0].pts == f.pts
                    &&& v@[0].keyframe == f.keyframe
                })
            },
    {
        match frame {
            Frame::Audio(_) => Err(Error::WrongFrameKind),
            Frame::Video(f) => {
                if f.data.len() == 0 {
                    return Ok(Vec::new());
                }
                let time = Time::checked(1000, self.format.fps_millis)?;
                let p = Packet::new(f.data, f.stream_id, time).with_pts(f.pts).with_keyframe(f.keyframe);
                let mut v: Vec<Packet> = Vec::new();
                v.push(p);
                Ok(v)
            },
        }
    }

    /// Nothing is held back.
    pub fn finish(&mut self) -> (r: Result<Vec<Packet>, Error>)
        ensures
            r matches Ok(v) && v@.len() == 0,
    {
        Ok(Vec::new())
    }
}

} // verus!
