use super::format::YuvFormat;
use crate::error::Error;
use crate::io::ByteReader;
use crate::media::{Packet, Stream, StreamKind, Streams, Time};
use vstd::prelude::*;

verus! {

/// The demuxer of raw YUV files: every `frame_size` bytes are one picture.
pub struct YuvDemuxer {
    reader: ByteReader,
    format: YuvFormat,
    streams: Streams,
    frame_size: usize,
    frame_count: u64,
    time: Time,
}

impl YuvDemuxer {
    /// The bytes not read yet.
    pub closed spec fn source(&self) -> Seq<u8> {
        self.reader.rest()
    }

    /// The format the data is read as.
    pub closed spec fn spec_format(&self) -> YuvFormat {
        self.format
    }

    /// The pictures handed out so far.
    pub closed spec fn spec_frame_count(&self) -> u64 {
        self.frame_count
    }

    /// The time base of the packets.
    pub closed spec fn spec_time(&self) -> Time {
        self.time
    }

    /// The streams.
    pub closed spec fn spec_streams(&self) -> Streams {
        self.streams
    }

    /// Pictures are not empty and the counter cannot overflow before the source runs out.
    pub closed spec fn wf(&self) -> bool {
        &&& self.frame_size == self.format.spec_frame_size()
        &&& self.frame_size > 0
        &&& self.frame_count + self.reader.rest().len() <= u64::MAX
    }

    /// A demuxer that reads all of `reader` as pictures of `format`: `ZeroFrameSize` where a
    /// picture has no bytes, `Overflow` where its size does not fit in `usize`, `ZeroTimeBase`
    /// where the frame rate is zero. The one stream is video, `yuv420p`, with a time base of
    /// `1000 / fps_millis`.
    pub fn new(reader: ByteReader, format: YuvFormat) -> (r: Result<Self, Error>)
        ensures
            format.spec_frame_size() == 0 ==> r == Err::<Self, Error>(Error::ZeroFrameSize),
            format.spec_frame_size() > usize::MAX ==> r == Err::<Self, Error>(Error::Overflow),
            0 < format.spec_frame_size() <= usize::MAX && format.fps_millis == 0 ==> r == Err::<
                Self,
                Error,
            >(Error::ZeroTimeBase),
            0 < format.spec_frame_size() <= usize::MAX && format.fps_millis != 0 ==> (r matches Ok(d)
                && {
                &&& d.wf()
                &&& d.source() == reader.rest()
                &&& d.spec_format() == format
                &&& d.spec_frame_count() == 0
                &&& d.spec_time() == Time { num: 1000, den: format.fps_millis }
                &&& d.spec_streams().items@.len() == 1
                &&& d.spec_streams().items@[0].id == 0
                &&& d.spec_streams().items@[0].kind == StreamKind::Video
                &&& d.spec_streams().items@[0].codec@ == "yuv420p"@
                &&& d.spec_streams().items@[0].time == Time { num: 1000, den: format.fps_millis }
            }),
    {
        let frame_size = match format.checked_frame_size() {
            Some(0) => return Err(Error::ZeroFrameSize),
            Some(n) => n,
            None => return Err(Error::Overflow),
        };
        let time = match Time::checked(1000, format.fps_millis) {
            Ok(t) => t,
            Err(e) => return Err(e),
        };
        let codec = String::from_str(format.to_codec_id());
        let mut items: Vec<Stream> = Vec::new();
        items.push(Stream::new(0, 0, StreamKind::Video, codec, time));
        let streams = Streams::new(items);
        let _ = reader.remaining();
        Ok(YuvDemuxer { reader, format, streams, frame_size, frame_count: 0, time })
    }

    /// The next picture: the next `frame_size` bytes, timed by the pictures before it, the first
    /// a keyframe; `None` where fewer bytes are left, which are then dropped.
    pub fn read_packet(&mut self) -> (r: Result<Option<Packet>, Error>)
        requires
            old(self).wf(),
        ensures
            final(self).wf(),
            r is Ok,
            final(self).spec_format() == old(self).spec_format(),
            final(self).spec_time() == old(self).spec_time(),
            final(self).spec_streams() == old(self).spec_streams(),
            ({
                let rest = old(self).source();
                let n = old(self).spec_format().spec_frame_size();
                if rest.len() < n {
                    &&& r == Ok::<Option<Packet>, Error>(None)
                    &&& final(self).source().len() == 0
                    &&& final(self).spec_frame_count() == old(self).spec_frame_count()
                } else {
                    &&& r matches Ok(Some(p))
                    &&& p.data@ == rest.take(n)
                    &&& p.stream_id == 0
                    &&& p.time == old(self).spec_time()
                    &&& p.pts == old(self).spec_frame_count() as i64
                    &&& p.keyframe == (old(self).spec_frame_count() == 0)
                    &&& final(self).source() == rest.skip(n)
                    &&& final(self).spec_frame_count() == old(self).spec_frame_count() + 1
                }
            }),
    {
        let data = self.reader.read(self.frame_size);
        if data.len() < self.frame_size {
            return Ok(None);
        }
        let pts = self.frame_count as i64;
        let keyframe = self.frame_count == 0;
        let packet = Packet { data, stream_id: 0, time: self.time, pts, keyframe };
        self.frame_count = self.frame_count + 1;
        Ok(Some(packet))
    }

    /// The format the data is read as.
    pub fn format(&self) -> (f: YuvFormat)
        ensures
            f == self.spec_format(),
    {
        self.format
    }

    /// The streams.
    pub fn streams(&self) -> (s: &Streams)
        ensures
            *s == self.spec_streams(),
    {
        &self.streams
    }
}

} // verus!
