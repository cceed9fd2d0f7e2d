use super::ebml::{
    be64, ebml_bytes, push_be64, ebml_float_of, ebml_id, ebml_uint, f64_bits_of, f64_bits_of_u64, push_element, push_float_of,
    push_id, push_size, push_uint, unknown_size, vint_size,
};
use crate::error::Error;
use crate::io::{lemma_splice, lemma_splice_concat, push_all, splice, zeros, ByteWriter};
use crate::media::{Packet, Stream, StreamKind, Streams, Time};
use vstd::prelude::*;
use vstd::utf8::encode_utf8;

verus! {

broadcast use vstd::std_specs::control_flow::group_control_flow_axioms;

/// EBML header.
pub const EBML: u32 = 0x1A45_DFA3;
/// EBML version.
pub const EBML_VERSION: u32 = 0x4286;
/// Version a reader needs.
pub const EBML_READ_VERSION: u32 = 0x42F7;
/// Longest element id.
pub const EBML_MAX_ID_LENGTH: u32 = 0x42F2;
/// Longest size field.
pub const EBML_MAX_SIZE_LENGTH: u32 = 0x42F3;
/// Document type.
pub const DOC_TYPE: u32 = 0x4282;
/// Document type version.
pub const DOC_TYPE_VERSION: u32 = 0x4287;
/// Document type version a reader needs.
pub const DOC_TYPE_READ_VERSION: u32 = 0x4285;
/// Segment.
pub const SEGMENT: u32 = 0x1853_8067;
/// Segment information.
pub const INFO: u32 = 0x1549_A966;
/// Nanoseconds per timecode tick.
pub const TIMECODE_SCALE: u32 = 0x2AD7B1;
/// Muxing application.
pub const MUXING_APP: u32 = 0x4D80;
/// Writing application.
pub const WRITING_APP: u32 = 0x5741;
/// Duration.
pub const DURATION: u32 = 0x4489;
/// Tracks.
pub const TRACKS: u32 = 0x1654_AE6B;
/// One track.
pub const TRACK_ENTRY: u32 = 0xAE;
/// Track number.
pub const TRACK_NUMBER: u32 = 0xD7;
/// Track UID.
pub const TRACK_UID: u32 = 0x73C5;
/// Track type.
pub const TRACK_TYPE: u32 = 0x83;
/// Codec id.
pub const CODEC_ID: u32 = 0x86;
/// Codec-private data.
pub const CODEC_PRIVATE: u32 = 0x63A2;
/// Video settings.
pub const VIDEO: u32 = 0xE0;
/// Width in pixels.
pub const PIXEL_WIDTH: u32 = 0xB0;
/// Height in pixels.
pub const PIXEL_HEIGHT: u32 = 0xBA;
/// Audio settings.
pub const AUDIO: u32 = 0xE1;
/// Sampling frequency.
pub const SAMPLING_FREQUENCY: u32 = 0xB5;
/// Channels.
pub const CHANNELS: u32 = 0x9F;
/// Bit depth.
pub const BIT_DEPTH: u32 = 0x6264;
/// Cluster.
pub const CLUSTER: u32 = 0x1F43_B675;
/// Cluster timecode.
pub const TIMECODE: u32 = 0xE7;
/// Simple block.
pub const SIMPLE_BLOCK: u32 = 0xA3;
/// One timecode tick is a millisecond.
pub const DEFAULT_TIMECODE_SCALE: u64 = 1_000_000;

/// The video track of a Matroska file.
#[derive(Debug, Clone)]
pub struct VideoTrackInfo {
    pub width: u32,
    pub height: u32,
    pub codec_private: Vec<u8>,
}

/// The audio track of a Matroska file.
#[derive(Debug, Clone, Copy)]
pub struct AudioTrackInfo {
    pub sample_rate: u32,
    pub channels: u16,
    pub bit_depth: u16,
}

/// A string element.
pub open spec fn ebml_str(id: u32, s: Seq<char>) -> Seq<u8> {
    ebml_bytes(id, encode_utf8(s))
}

/// The body of the EBML header: versions 1, id length 4, size length 8, document type
/// `matroska` version 4, readable from version 2.
pub open spec fn ebml_header_body() -> Seq<u8> {
    ebml_uint(EBML_VERSION, 1) + ebml_uint(EBML_READ_VERSION, 1) + ebml_uint(EBML_MAX_ID_LENGTH, 4) + ebml_uint(
        EBML_MAX_SIZE_LENGTH,
        8,
    ) + ebml_str(DOC_TYPE, "matroska"@) + ebml_uint(DOC_TYPE_VERSION, 4) + ebml_uint(DOC_TYPE_READ_VERSION, 2)
}

/// The body of the segment information up to the duration's value: a millisecond timecode
/// scale and the application names.
pub open spec fn info_head() -> Seq<u8> {
    ebml_uint(TIMECODE_SCALE, DEFAULT_TIMECODE_SCALE) + ebml_str(MUXING_APP, "ffmpreg"@) + ebml_str(
        WRITING_APP,
        "ffmpreg"@,
    ) + ebml_id(DURATION) + vint_size(8)
}

/// The body of the segment information: the duration is left at zero.
pub open spec fn info_body() -> Seq<u8> {
    info_head() + zeros(8)
}

/// The track entry of a video track.
pub open spec fn video_entry(width: u32, height: u32, cp: Seq<u8>) -> Seq<u8> {
    ebml_uint(TRACK_NUMBER, 1) + ebml_uint(TRACK_UID, 1) + ebml_uint(TRACK_TYPE, 1) + ebml_str(
        CODEC_ID,
        "V_MPEG4/ISO/AVC"@,
    ) + (if cp.len() > 0 { ebml_bytes(CODEC_PRIVATE, cp) } else { Seq::empty() }) + ebml_bytes(
        VIDEO,
        ebml_uint(PIXEL_WIDTH, width as u64) + ebml_uint(PIXEL_HEIGHT, height as u64),
    )
}

/// The track entry of an audio track.
pub open spec fn audio_entry(a: AudioTrackInfo) -> Seq<u8> {
    ebml_uint(TRACK_NUMBER, 2) + ebml_uint(TRACK_UID, 2) + ebml_uint(TRACK_TYPE, 2) + ebml_str(CODEC_ID, "A_PCM/INT/LIT"@)
        + ebml_bytes(
        AUDIO,
        ebml_float_of(SAMPLING_FREQUENCY, a.sample_rate as u64) + ebml_uint(CHANNELS, a.channels as u64) + ebml_uint(
            BIT_DEPTH,
            a.bit_depth as u64,
        ),
    )
}

/// The body of the tracks element.
pub open spec fn tracks_body(video: Option<(u32, u32, Seq<u8>)>, audio: Option<AudioTrackInfo>) -> Seq<u8> {
    (match video {
        Some((w, h, cp)) => ebml_bytes(TRACK_ENTRY, video_entry(w, h, cp)),
        None => Seq::empty(),
    }) + (match audio {
        Some(a) => ebml_bytes(TRACK_ENTRY, audio_entry(a)),
        None => Seq::empty(),
    })
}

/// A video track as its values.
pub open spec fn video_model(v: Option<VideoTrackInfo>) -> Option<(u32, u32, Seq<u8>)> {
    match v {
        Some(t) => Some((t.width, t.height, t.codec_private@)),
        None => None,
    }
}

/// What a new muxer writes: the EBML header, a segment of unknown size, the segment
/// information and the tracks.
pub open spec fn mkv_header_bytes(video: Option<(u32, u32, Seq<u8>)>, audio: Option<AudioTrackInfo>) -> Seq<u8> {
    ebml_bytes(EBML, ebml_header_body()) + (ebml_id(SEGMENT) + unknown_size()) + ebml_bytes(INFO, info_body())
        + ebml_bytes(TRACKS, tracks_body(video, audio))
}

/// Where the duration's value lies, from the start of what a new muxer writes.
pub open spec fn duration_offset() -> int {
    (ebml_bytes(EBML, ebml_header_body()).len() + 12 + ebml_id(INFO).len() + vint_size(info_body().len() as u64).len()
        + info_head().len()) as int
}

/// A simple block: track number, timecode relative to the cluster, flags and data.
pub open spec fn simple_block(track: u8, rel: i16, keyframe: bool, data: Seq<u8>) -> Seq<u8> {
    ebml_id(SIMPLE_BLOCK) + vint_size((4 + data.len()) as u64) + seq![
        0x80u8 | track,
        ((rel as u16) >> 8u16) as u8,
        (rel as u16) as u8,
        if keyframe { 0x80u8 } else { 0x00u8 },
    ] + data
}

/// The start of a cluster at `tc` milliseconds.
pub open spec fn cluster_start(tc: i64) -> Seq<u8> {
    ebml_id(CLUSTER) + unknown_size() + ebml_uint(TIMECODE, tc as u64)
}

fn str_element(v: &mut Vec<u8>, id: u32, s: &str)
    ensures
        final(v)@ == old(v)@ + ebml_str(id, s@),
{
    push_element(v, id, s.as_bytes());
}

fn ebml_header_bytes() -> (b: Vec<u8>)
    ensures
        b@ == ebml_bytes(EBML, ebml_header_body()),
{
    let mut body: Vec<u8> = Vec::new();
    push_uint(&mut body, EBML_VERSION, 1);
    assert(body@ =~= ebml_uint(EBML_VERSION, 1));
    push_uint(&mut body, EBML_READ_VERSION, 1);
    push_uint(&mut body, EBML_MAX_ID_LENGTH, 4);
    push_uint(&mut body, EBML_MAX_SIZE_LENGTH, 8);
    str_element(&mut body, DOC_TYPE, "matroska");
    push_uint(&mut body, DOC_TYPE_VERSION, 4);
    push_uint(&mut body, DOC_TYPE_READ_VERSION, 2);
    let mut out: Vec<u8> = Vec::new();
    push_element(&mut out, EBML, body.as_slice());
    assert(out@ =~= ebml_bytes(EBML, ebml_header_body()));
    out
}

fn info_bytes() -> (b: Vec<u8>)
    ensures
        b@ == ebml_bytes(INFO, info_body()),
{
    let mut body: Vec<u8> = Vec::new();
    push_uint(&mut body, TIMECODE_SCALE, DEFAULT_TIMECODE_SCALE);
    assert(body@ =~= ebml_uint(TIMECODE_SCALE, DEFAULT_TIMECODE_SCALE));
    str_element(&mut body, MUXING_APP, "ffmpreg");
    str_element(&mut body, WRITING_APP, "ffmpreg");
    push_id(&mut body, DURATION);
    push_size(&mut body, 8);
    crate::io::push_zeros(&mut body, 8);
    let mut out: Vec<u8> = Vec::new();
    push_element(&mut out, INFO, body.as_slice());
    assert(out@ =~= ebml_bytes(INFO, info_body()));
    out
}

fn tracks_bytes(video: &Option<VideoTrackInfo>, audio: &Option<AudioTrackInfo>) -> (b: Vec<u8>)
    ensures
        b@ == ebml_bytes(TRACKS, tracks_body(video_model(*video), *audio)),
{
    let mut body: Vec<u8> = Vec::new();
    if let Some(v) = video {
        let mut entry: Vec<u8> = Vec::new();
        push_uint(&mut entry, TRACK_NUMBER, 1);
        assert(entry@ =~= ebml_uint(TRACK_NUMBER, 1));
        push_uint(&mut entry, TRACK_UID, 1);
        push_uint(&mut entry, TRACK_TYPE, 1);
        str_element(&mut entry, CODEC_ID, "V_MPEG4/ISO/AVC");
        let ghost head = entry@;
        if v.codec_private.len() > 0 {
            push_element(&mut entry, CODEC_PRIVATE, v.codec_private.as_slice());
        }
        assert(entry@ =~= head + (if v.codec_private@.len() > 0 {
            ebml_bytes(CODEC_PRIVATE, v.codec_private@)
        } else {
            Seq::empty()
        }));
        let mut video_body: Vec<u8> = Vec::new();
        push_uint(&mut video_body, PIXEL_WIDTH, v.width as u64);
        assert(video_body@ =~= ebml_uint(PIXEL_WIDTH, v.width as u64));
        push_uint(&mut video_body, PIXEL_HEIGHT, v.height as u64);
        push_element(&mut entry, VIDEO, video_body.as_slice());
        assert(entry@ =~= video_entry(v.width, v.height, v.codec_private@));
        push_element(&mut body, TRACK_ENTRY, entry.as_slice());
    }
    let ghost vpart = body@;
    if let Some(a) = audio {
        let mut entry: Vec<u8> = Vec::new();
        push_uint(&mut entry, TRACK_NUMBER, 2);
        assert(entry@ =~= ebml_uint(TRACK_NUMBER, 2));
        push_uint(&mut entry, TRACK_UID, 2);
        push_uint(&mut entry, TRACK_TYPE, 2);
        str_element(&mut entry, CODEC_ID, "A_PCM/INT/LIT");
        let mut audio_body: Vec<u8> = Vec::new();
        push_float_of(&mut audio_body, SAMPLING_FREQUENCY, a.sample_rate as u64);
        assert(audio_body@ =~= ebml_float_of(SAMPLING_FREQUENCY, a.sample_rate as u64));
        push_uint(&mut audio_body, CHANNELS, a.channels as u64);
        push_uint(&mut audio_body, BIT_DEPTH, a.bit_depth as u64);
        push_element(&mut entry, AUDIO, audio_body.as_slice());
        assert(entry@ =~= audio_entry(*a));
        push_element(&mut body, TRACK_ENTRY, entry.as_slice());
        assert(body@ =~= vpart + ebml_bytes(TRACK_ENTRY, audio_entry(*a)));
    }
    assert(body@ =~= tracks_body(video_model(*video), *audio));
    let mut out: Vec<u8> = Vec::new();
    push_element(&mut out, TRACKS, body.as_slice());
    assert(out@ =~= ebml_bytes(TRACKS, tracks_body(video_model(*video), *audio)));
    out
}

fn mkv_header(video: &Option<VideoTrackInfo>, audio: &Option<AudioTrackInfo>) -> (r: (Vec<u8>, usize))
    ensures
        r.0@ == mkv_header_bytes(video_model(*video), *audio),
        r.1 == duration_offset(),
        r.1 + 8 <= r.0@.len(),
{
    let header = ebml_header_bytes();
    let info = info_bytes();
    let tracks = tracks_bytes(video, audio);
    let mut out: Vec<u8> = Vec::new();
    push_all(&mut out, header.as_slice());
    assert(out@ =~= header@);
    push_id(&mut out, SEGMENT);
    let b: [u8; 8] = [0x01, 0xFF, 0xFF, 0xFF, 0xFF, 0xFF, 0xFF, 0xFF];
    push_all(&mut out, &b);
    push_all(&mut out, info.as_slice());
    let after_info = out.len();
    push_all(&mut out, tracks.as_slice());
    proof {
        assert(b@ =~= unknown_size());
        assert(out@ =~= mkv_header_bytes(video_model(*video), *audio));
        assert(info_body().len() == info_head().len() + 8);
    }
    (out, after_info - 8)
}

/// The Matroska muxer: headers up front, then clusters of simple blocks; the duration is
/// patched in at the end.
pub struct MkvMuxer {
    writer: ByteWriter,
    streams: Streams,
    cluster_timecode: Option<i64>,
    cluster_max_duration: i64,
    duration_pos: u64,
    max_timecode_ms: i64,
}

impl MkvMuxer {
    /// The sink.
    pub closed spec fn spec_writer(&self) -> ByteWriter {
        self.writer
    }

    /// The streams.
    pub closed spec fn spec_streams(&self) -> Streams {
        self.streams
    }

    /// The timecode of the open cluster, if one is open.
    pub closed spec fn spec_cluster(&self) -> Option<i64> {
        self.cluster_timecode
    }

    /// Where the duration's value lies.
    pub closed spec fn spec_duration_pos(&self) -> u64 {
        self.duration_pos
    }

    /// The latest timecode written, in milliseconds (zero before any).
    pub closed spec fn spec_max_timecode(&self) -> i64 {
        self.max_timecode_ms
    }

    /// The duration lies inside what was written, clusters last five seconds and the latest
    /// timecode is not negative.
    pub closed spec fn wf(&self) -> bool {
        &&& self.duration_pos + 8 <= self.writer.position()
        &&& self.writer.position() <= self.writer.contents().len()
        &&& self.max_timecode_ms >= 0
        &&& self.cluster_max_duration == 5000
    }

    /// Starts a Matroska file at the writer's position. The streams are a video stream (id 1,
    /// codec `V_MS/VFW/FOURCC`, with the track's codec-private data where there is any) if
    /// there is a video track and an audio stream (id 2, codec `A_PCM/INT/LIT`) if there is an
    /// audio track, both in milliseconds.
    pub fn new(writer: ByteWriter, video: Option<VideoTrackInfo>, audio: Option<AudioTrackInfo>) -> (r: Result<
        Self,
        Error,
    >)
        ensures
            ({
                let p = writer.position();
                let bytes = mkv_header_bytes(video_model(video), audio);
                &&& p + bytes.len() <= usize::MAX ==> (r matches Ok(m) && {
                    &&& m.wf()
                    &&& m.spec_writer().contents() == splice(writer.contents(), p as int, bytes)
                    &&& m.spec_writer().position() == p + bytes.len()
                    &&& m.spec_duration_pos() == p + duration_offset()
                    &&& m.spec_cluster() is None
                    &&& m.spec_max_timecode() == 0
                    &&& m.spec_streams().items@.len() == (if video is Some { 1int } else { 0 }) + (if audio is Some {
                        1int
                    } else {
                        0
                    })
                    &&& video matches Some(v) ==> {
                        let s = m.spec_streams().items@[0];
                        &&& s.id == 1 && s.index == 0 && s.kind == StreamKind::Video
                        &&& s.codec@ == "V_MS/VFW/FOURCC"@ && s.time == Time { num: 1, den: 1000 }
                        &&& s.codec_private@ == v.codec_private@
                    }
                    &&& audio is Some ==> {
                        let s = m.spec_streams().items@.last();
                        &&& s.id == 2 && s.index == (if video is Some { 1usize } else { 0 })
                        &&& s.kind == StreamKind::Audio
                        &&& s.codec@ == "A_PCM/INT/LIT"@ && s.time == Time { num: 1, den: 1000 }
                        &&& s.codec_private@ == Seq::<u8>::empty()
                    }
                })
                &&& p + bytes.len() > usize::MAX ==> r == Err::<Self, Error>(Error::Overflow)
            }),
    {
        let mut writer = writer;
        let mut streams = Streams::new_empty();
        let mut track_idx: usize = 0;
        if let Some(v) = &video {
            let mut stream = Stream::new(
                1,
                track_idx,
                StreamKind::Video,
                String::from_str("V_MS/VFW/FOURCC"),
                Time::new(1, 1000),
            );
            if v.codec_private.len() > 0 {
                stream = stream.with_codec_private(v.codec_private.clone());
            }
            streams.add(stream);
            track_idx = track_idx + 1;
        }
        if audio.is_some() {
            let stream = Stream::new(2, track_idx, StreamKind::Audio, String::from_str("A_PCM/INT/LIT"), Time::new(1, 1000));
            streams.add(stream);
        }
        let (out, offset) = mkv_header(&video, &audio);
        let start = writer.stream_position();
        writer.write_all(out.as_slice())?;
        let duration_pos = start + offset as u64;
        proof {
            writer.lemma_position();
        }
        Ok(MkvMuxer {
            writer,
            streams,
            cluster_timecode: None,
            cluster_max_duration: 5000,
            duration_pos,
            max_timecode_ms: 0,
        })
    }

    /// The sink, with everything written so far.
    pub fn writer(&self) -> (w: &ByteWriter)
        ensures
            *w == self.spec_writer(),
    {
        &self.writer
    }

    /// The streams.
    pub fn streams(&self) -> (s: &Streams)
        ensures
            *s == self.spec_streams(),
    {
        &self.streams
    }

    /// Opens a cluster at `timecode_ms`.
    fn start_cluster(&mut self, timecode_ms: i64) -> (r: Result<(), Error>)
        requires
            old(self).wf(),
        ensures
            ({
                let p = old(self).spec_writer().position();
                let bytes = cluster_start(timecode_ms);
                &&& p + bytes.len() <= usize::MAX ==> r is Ok && final(self).wf() && final(self).spec_writer().contents()
                    == splice(old(self).spec_writer().contents(), p as int, bytes) && final(self).spec_writer().position()
                    == p + bytes.len() && final(self).spec_cluster() == Some(timecode_ms)
                    && final(self).spec_max_timecode() == old(self).spec_max_timecode()
                    && final(self).spec_duration_pos() == old(self).spec_duration_pos()
                &&& p + bytes.len() > usize::MAX ==> r == Err::<(), Error>(Error::Overflow) && *final(self) == *old(self)
                &&& final(self).spec_streams() == old(self).spec_streams()
            }),
    {
        let mut b: Vec<u8> = Vec::new();
        push_id(&mut b, CLUSTER);
        let m: [u8; 8] = [0x01, 0xFF, 0xFF, 0xFF, 0xFF, 0xFF, 0xFF, 0xFF];
        push_all(&mut b, &m);
        push_uint(&mut b, TIMECODE, timecode_ms as u64);
        assert(m@ =~= unknown_size());
        assert(b@ =~= cluster_start(timecode_ms));
        self.writer.write_all(b.as_slice())?;
        self.cluster_timecode = Some(timecode_ms);
        proof {
            self.writer.lemma_position();
        }
        Ok(())
    }

    /// Writes a simple block for track `track_number`.
    fn write_simple_block(&mut self, track_number: u8, timecode_rel: i16, keyframe: bool, data: &[u8]) -> (r: Result<
        (),
        Error,
    >)
        requires
            old(self).wf(),
            data@.len() + 4 <= usize::MAX,
        ensures
            ({
                let p = old(self).spec_writer().position();
                let bytes = simple_block(track_number, timecode_rel, keyframe, data@);
                &&& p + bytes.len() <= usize::MAX ==> r is Ok && final(self).wf() && final(self).spec_writer().contents()
                    == splice(old(self).spec_writer().contents(), p as int, bytes) && final(self).spec_writer().position()
                    == p + bytes.len() && final(self).spec_cluster() == old(self).spec_cluster()
                    && final(self).spec_max_timecode() == old(self).spec_max_timecode()
                    && final(self).spec_duration_pos() == old(self).spec_duration_pos()
                &&& p + bytes.len() > usize::MAX ==> r == Err::<(), Error>(Error::Overflow) && *final(self) == *old(self)
                &&& final(self).spec_streams() == old(self).spec_streams()
            }),
    {
        let block_size = 1 + 2 + 1 + data.len();
        let mut b: Vec<u8> = Vec::new();
        push_id(&mut b, SIMPLE_BLOCK);
        push_size(&mut b, block_size as u64);
        b.push(0x80u8 | track_number);
        let rel = timecode_rel as u16;
        b.push((rel >> 8u16) as u8);
        b.push(rel as u8);
        let flags: u8 = if keyframe { 0x80 } else { 0x00 };
        b.push(flags);
        push_all(&mut b, data);
        assert(b@ =~= simple_block(track_number, timecode_rel, keyframe, data@));
        self.writer.write_all(b.as_slice())?;
        proof {
            self.writer.lemma_position();
        }
        Ok(())
    }

    /// Writes a packet at `timecode_ms` as a simple block of the track its stream id names,
    /// opening a new cluster first where none is open or the open one began five seconds or
    /// more before. Stream id zero (taken modulo 256) names no track.
    pub fn write_packet(&mut self, packet: Packet, timecode_ms: i64) -> (r: Result<(), Error>)
        requires
            old(self).wf(),
            packet.data@.len() + 4 <= usize::MAX,
            old(self).spec_cluster() matches Some(ct) ==> i64::MIN <= timecode_ms - ct <= i64::MAX,
        ensures
            ({
                let track = packet.stream_id as u8;
                let need = match old(self).spec_cluster() {
                    None => true,
                    Some(ct) => timecode_ms - ct >= 5000,
                };
                let ct = if need { timecode_ms } else { old(self).spec_cluster()->0 };
                let pre = if need { cluster_start(timecode_ms) } else { Seq::empty() };
                let bytes = pre + simple_block(track, (timecode_ms - ct) as i16, packet.keyframe, packet.data@);
                let p = old(self).spec_writer().position();
                &&& track == 0 ==> r == Err::<(), Error>(Error::ZeroTrackNumber) && *final(self) == *old(self)
                &&& track != 0 && p + bytes.len() <= usize::MAX ==> r is Ok && final(self).wf()
                    && final(self).spec_writer().contents() == splice(old(self).spec_writer().contents(), p as int, bytes)
                    && final(self).spec_writer().position() == p + bytes.len() && final(self).spec_cluster() == Some(ct)
                    && final(self).spec_max_timecode() == (if timecode_ms > old(self).spec_max_timecode() {
                    timecode_ms
                } else {
                    old(self).spec_max_timecode()
                }) && final(self).spec_duration_pos() == old(self).spec_duration_pos()
                &&& track != 0 && p + bytes.len() > usize::MAX ==> r == Err::<(), Error>(Error::Overflow)
                &&& final(self).spec_streams() == old(self).spec_streams()
            }),
    {
        let track_number = packet.stream_id as u8;
        if track_number == 0 {
            return Err(Error::ZeroTrackNumber);
        }
        let ghost c0 = self.writer.contents();
        let ghost p0 = self.writer.position() as int;
        proof {
            self.writer.lemma_position();
        }
        if timecode_ms > self.max_timecode_ms {
            self.max_timecode_ms = timecode_ms;
        }
        let need_new_cluster = match self.cluster_timecode {
            None => true,
            Some(ct) => timecode_ms - ct >= self.cluster_max_duration,
        };
        if need_new_cluster {
            self.start_cluster(timecode_ms)?;
        }
        let ghost pre = if need_new_cluster { cluster_start(timecode_ms) } else { Seq::<u8>::empty() };
        assert(self.writer.contents() =~= splice(c0, p0, pre));
        let cluster_tc = match self.cluster_timecode {
            Some(ct) => ct,
            None => timecode_ms,
        };
        let rel = (timecode_ms - cluster_tc) as i16;
        self.write_simple_block(track_number, rel, packet.keyframe, packet.data.as_slice())?;
        proof {
            lemma_splice_concat(c0, p0, pre, simple_block(track_number, rel, packet.keyframe, packet.data@));
        }
        Ok(())
    }

    /// Patches the duration: the latest timecode, in milliseconds, as a double.
    pub fn finalize(&mut self) -> (r: Result<(), Error>)
        requires
            old(self).wf(),
        ensures
            r is Ok,
            final(self).wf(),
            final(self).spec_writer().contents() == splice(
                old(self).spec_writer().contents(),
                old(self).spec_duration_pos() as int,
                be64(f64_bits_of(old(self).spec_max_timecode() as u64)),
            ),
            final(self).spec_writer().position() == old(self).spec_duration_pos() + 8,
            final(self).spec_streams() == old(self).spec_streams(),
    {
        let bits = f64_bits_of_u64(self.max_timecode_ms as u64);
        let mut b: Vec<u8> = Vec::new();
        push_be64(&mut b, bits);
        proof {
            self.writer.lemma_position();
        }
        let _ = self.writer.seek(self.duration_pos);
        let _ = self.writer.write_all(b.as_slice());
        proof {
            lemma_splice(old(self).writer.contents(), self.duration_pos as int, be64(bits));
            self.writer.lemma_position();
        }
        Ok(())
    }
}

} // verus!
