//! The values that flow between demuxers, codecs and muxers: time bases, channel layouts,
//! streams and packets.
use crate::error::Error;
use vstd::prelude::*;

verus! {

/// A time base: one tick lasts `num / den` seconds.
#[derive(Debug, Clone, Copy, PartialEq, Eq)]
pub struct Time {
    pub num: u32,
    pub den: u32,
}

impl Time {
    /// The time base `num / den`, whatever `den` is.
    pub fn new(num: u32, den: u32) -> (t: Time)
        ensures
            t.num == num,
            t.den == den,
    {
        Time { num, den }
    }

    /// The time base `num / den`; fails with `ZeroTimeBase` exactly when `den` is zero.
    pub fn checked(num: u32, den: u32) -> (r: Result<Time, Error>)
        ensures
            den != 0 ==> r == Ok::<Time, Error>(Time { num, den }),
            den == 0 ==> r == Err::<Time, Error>(Error::ZeroTimeBase),
    {
        if den == 0 {
            Err(Error::ZeroTimeBase)
        } else {
            Ok(Time { num, den })
        }
    }
}

/// A channel layout, known by its number of channels.
#[derive(Debug, Clone, Copy, PartialEq, Eq)]
pub enum Channels {
    Mono,
    Stereo,
    Count(u8),
}

impl Channels {
    /// The number of channels of a layout.
    pub open spec fn spec_count(&self) -> u8 {
        match self {
            Channels::Mono => 1,
            Channels::Stereo => 2,
            Channels::Count(n) => *n,
        }
    }

    /// The layout with `n` channels: `Mono` for one, `Stereo` for two, `Count(n)` otherwise.
    pub open spec fn spec_from_count(n: u8) -> Channels {
        if n == 1 {
            Channels::Mono
        } else if n == 2 {
            Channels::Stereo
        } else {
            Channels::Count(n)
        }
    }

    /// The layout with `n` channels: `Mono` for one, `Stereo` for two, `Count(n)` otherwise.
    pub fn from_count(n: u8) -> (c: Channels)
        ensures
            c == Channels::spec_from_count(n),
            c.spec_count() == n,
    {
        if n == 1 {
            Channels::Mono
        } else if n == 2 {
            Channels::Stereo
        } else {
            Channels::Count(n)
        }
    }

    /// The number of channels.
    #[verifier::when_used_as_spec(spec_count)]
    pub fn count(&self) -> (n: u8)
        ensures
            n == self.spec_count(),
    {
        match self {
            Channels::Mono => 1,
            Channels::Stereo => 2,
            Channels::Count(n) => *n,
        }
    }
}

/// The sample format of decoded PCM audio.
#[derive(Debug, Clone, Copy, PartialEq, Eq)]
pub enum AudioFormat {
    PCM16,
    PCM24,
    PCM32,
}

/// The picture layout of a raw video stream.
#[derive(Debug, Clone, Copy, PartialEq, Eq)]
pub struct VideoFormat {
    pub width: u32,
    pub height: u32,
    /// Bits per component.
    pub depth: u8,
}

/// The format of a track, as a muxer or a codec is given it.
#[derive(Debug, Clone, Copy, PartialEq, Eq)]
pub enum Format {
    Wav(crate::container::wav::format::WavFormat),
    Video(VideoFormat),
    Yuv(crate::container::yuv::format::YuvFormat),
}

/// What a stream carries.
#[derive(Debug, Clone, Copy, PartialEq, Eq)]
pub enum StreamKind {
    Video,
    Audio,
    Subtitle,
}

/// One elementary stream of a container.
#[derive(Debug, Clone)]
pub struct Stream {
    pub id: u32,
    pub index: usize,
    pub kind: StreamKind,
    pub codec: String,
    pub time: Time,
    pub codec_private: Vec<u8>,
}

impl Stream {
    /// A stream with no codec-private data.
    pub fn new(id: u32, index: usize, kind: StreamKind, codec: String, time: Time) -> (s: Stream)
        ensures
            s.id == id,
            s.index == index,
            s.kind == kind,
            s.codec@ == codec@,
            s.time == time,
            s.codec_private@ == Seq::<u8>::empty(),
    {
        Stream { id, index, kind, codec, time, codec_private: Vec::new() }
    }

    /// An audio stream whose position among the streams is its id.
    pub fn new_audio(id: u32, codec: String, time: Time) -> (s: Stream)
        ensures
            s.id == id,
            s.index == id,
            s.kind == StreamKind::Audio,
            s.codec@ == codec@,
            s.time == time,
            s.codec_private@ == Seq::<u8>::empty(),
    {
        Stream::new(id, id as usize, StreamKind::Audio, codec, time)
    }

    /// The same stream with `data` as its codec-private data.
    pub fn with_codec_private(self, data: Vec<u8>) -> (s: Stream)
        ensures
            s.id == self.id,
            s.index == self.index,
            s.kind == self.kind,
            s.codec@ == self.codec@,
            s.time == self.time,
            s.codec_private@ == data@,
    {
        Stream { codec_private: data, ..self }
    }

    /// Whether the stream carries video.
    pub fn video_kind(&self) -> (b: bool)
        ensures
            b == (self.kind == StreamKind::Video),
    {
        match self.kind {
            StreamKind::Video => true,
            _ => false,
        }
    }
}

/// The streams of a container, in the order they were added.
#[derive(Debug, Clone)]
pub struct Streams {
    pub items: Vec<Stream>,
}

/// The position of the first stream in `items` whose id is `id`, if there is one.
pub open spec fn first_with_id(items: Seq<Stream>, id: u32) -> Option<int>
    decreases items.len(),
{
    if items.len() == 0 {
        None
    } else if items[0].id == id {
        Some(0)
    } else {
        match first_with_id(items.skip(1), id) {
            Some(i) => Some(i + 1),
            None => None,
        }
    }
}

/// The position `first_with_id` gives lies in `items` and holds a stream with that id.
pub proof fn lemma_first_with_id(items: Seq<Stream>, id: u32)
    ensures
        first_with_id(items, id) matches Some(i) ==> 0 <= i < items.len() && items[i].id == id,
    decreases items.len(),
{
    if items.len() > 0 && items[0].id != id {
        lemma_first_with_id(items.skip(1), id);
    }
}

impl Streams {
    /// No streams.
    pub fn new_empty() -> (s: Streams)
        ensures
            s.items@ == Seq::<Stream>::empty(),
    {
        Streams { items: Vec::new() }
    }

    /// The streams `items`, in that order.
    pub fn new(items: Vec<Stream>) -> (s: Streams)
        ensures
            s.items@ == items@,
    {
        Streams { items }
    }

    /// The id the next added stream gets: the number of streams so far.
    pub fn next_id(&self) -> (id: u32)
        requires
            self.items@.len() <= u32::MAX,
        ensures
            id == self.items@.len(),
    {
        self.items.len() as u32
    }

    /// Adds a stream after the others.
    pub fn add(&mut self, stream: Stream)
        ensures
            final(self).items@ == old(self).items@.push(stream),
    {
        self.items.push(stream);
    }

    /// The number of streams.
    pub fn len(&self) -> (n: usize)
        ensures
            n == self.items@.len(),
    {
        self.items.len()
    }

    /// The first stream whose id is `id`, if any.
    pub fn get(&self, id: u32) -> (r: Option<&Stream>)
        ensures
            match first_with_id(self.items@, id) {
                Some(i) => r == Some(&self.items@[i]),
                None => r is None,
            },
    {
        let mut i: usize = 0;
        assert(self.items@.skip(0) =~= self.items@);
        while i < self.items.len()
            invariant
                i <= self.items@.len(),
                first_with_id(self.items@, id) == (match first_with_id(self.items@.skip(i as int), id) {
                    Some(k) => Some(k + i),
                    None => None::<int>,
                }),
            decreases self.items@.len() - i,
        {
            if self.items[i].id == id {
                return Some(&self.items[i]);
            }
            assert(self.items@.skip(i as int).skip(1) =~= self.items@.skip(i + 1));
            i = i + 1;
        }
        None
    }
}

/// A chunk of coded data of one stream, stamped with a presentation time.
#[derive(Debug, Clone)]
pub struct Packet {
    pub data: Vec<u8>,
    pub stream_id: u32,
    pub time: Time,
    pub pts: i64,
    pub keyframe: bool,
}

impl Packet {
    /// A packet at time zero that is not a keyframe.
    pub fn new(data: Vec<u8>, stream_id: u32, time: Time) -> (p: Packet)
        ensures
            p.data@ == data@,
            p.stream_id == stream_id,
            p.time == time,
            p.pts == 0,
            !p.keyframe,
    {
        Packet { data, stream_id, time, pts: 0, keyframe: false }
    }

    /// The same packet at presentation time `pts`.
    pub fn with_pts(self, pts: i64) -> (p: Packet)
        ensures
            p.data@ == self.data@,
            p.stream_id == self.stream_id,
            p.time == self.time,
            p.pts == pts,
            p.keyframe == self.keyframe,
    {
        Packet { pts, ..self }
    }

    /// The same packet, marked as a keyframe or not.
    pub fn with_keyframe(self, keyframe: bool) -> (p: Packet)
        ensures
            p.data@ == self.data@,
            p.stream_id == self.stream_id,
            p.time == self.time,
            p.pts == self.pts,
            p.keyframe == keyframe,
    {
        Packet { keyframe, ..self }
    }

    /// Whether the packet holds no data.
    pub fn is_empty(&self) -> (b: bool)
        ensures
            b == (self.data@.len() == 0),
    {
        self.data.len() == 0
    }
}

} // verus!
