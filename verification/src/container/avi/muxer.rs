use crate::error::Error;
use crate::io::{
    fcc, le16, le32, lemma_splice, lemma_splice_concat, push_all, push_fcc, push_le16, push_le32,
    push_zeros, splice, zeros, ByteWriter,
};
use crate::media::{first_with_id, Packet, Stream, StreamKind, Streams, Time};
use vstd::prelude::*;

verus! {

broadcast use vstd::std_specs::control_flow::group_control_flow_axioms;

/// The video track of an AVI file.
#[derive(Debug, Clone, Copy)]
pub struct AviVideoTrack {
    pub width: u32,
    pub height: u32,
    pub fps: u32,
    /// The codec's four-character code (such as `H264` or `MJPG`).
    pub fourcc: [u8; 4],
}

/// The audio track of an AVI file.
#[derive(Debug, Clone, Copy)]
pub struct AviAudioTrack {
    pub sample_rate: u32,
    pub channels: u16,
    pub bit_depth: u16,
    /// The WAVE format tag: 1 for PCM, 0x55 for MP3, 0xFF for AAC.
    pub format_tag: u16,
}

/// One entry of the `idx1` index.
#[derive(Debug, Clone, Copy)]
pub struct IndexEntry {
    pub chunk_id: [u8; 4],
    pub flags: u32,
    pub offset: u32,
    pub size: u32,
}

/// A video track whose headers can be computed: a frame rate other than zero and a picture
/// size whose three-bytes-per-pixel image fits in 32 bits.
pub open spec fn video_ok(v: AviVideoTrack) -> bool {
    v.fps != 0 && v.width * v.height * 3 <= u32::MAX
}

/// The bytes of one audio frame: channels times whole bytes per sample.
pub open spec fn audio_block_align(a: AviAudioTrack) -> int {
    a.channels * (a.bit_depth / 8)
}

/// An audio track whose block alignment fits in 16 bits and byte rate in 32.
pub open spec fn audio_ok(a: AviAudioTrack) -> bool {
    audio_block_align(a) <= u16::MAX && a.sample_rate * audio_block_align(a) <= u32::MAX
}

/// Tracks whose headers can be computed.
pub open spec fn tracks_ok(video: Option<AviVideoTrack>, audio: Option<AviAudioTrack>) -> bool {
    (video matches Some(v) ==> video_ok(v)) && (audio matches Some(a) ==> audio_ok(a))
}

/// The body of the `avih` main header (56 bytes).
pub open spec fn avih_body(video: Option<AviVideoTrack>, audio: Option<AviAudioTrack>) -> Seq<u8> {
    let n: int = (if video is Some { 1int } else { 0 }) + (if audio is Some { 1int } else { 0 });
    let fps: int = match video { Some(v) => v.fps as int, None => 30 };
    let width: int = match video { Some(v) => v.width as int, None => 0 };
    let height: int = match video { Some(v) => v.height as int, None => 0 };
    le32(1000000int / fps) + le32(0) + le32(0) + le32(0x10) + le32(0) + le32(0) + le32(n) + le32(0)
        + le32(width) + le32(height) + zeros(16)
}

/// The `strh` body of a video track (56 bytes).
pub open spec fn video_strh(v: AviVideoTrack) -> Seq<u8> {
    fcc(0x76, 0x69, 0x64, 0x73) + v.fourcc@ + le32(0) + le16(0) + le16(0) + le32(0) + le32(1) + le32(
        v.fps as int,
    ) + le32(0) + le32(0) + le32(0) + le32(0xFFFFFFFF) + le32(0) + le16(0) + le16(0) + le16(
        (v.width as u16) as int,
    ) + le16((v.height as u16) as int)
}

/// The `strf` body of a video track: a BITMAPINFOHEADER (40 bytes).
pub open spec fn video_strf(v: AviVideoTrack) -> Seq<u8> {
    le32(40) + le32(v.width as int) + le32(v.height as int) + le16(1) + le16(24) + v.fourcc@ + le32(
        v.width * v.height * 3,
    ) + le32(0) + le32(0) + le32(0) + le32(0)
}

/// The `strh` body of an audio track (56 bytes).
pub open spec fn audio_strh(a: AviAudioTrack) -> Seq<u8> {
    let ba = audio_block_align(a);
    fcc(0x61, 0x75, 0x64, 0x73) + le16(a.format_tag as int) + le16(0) + le32(0) + le16(0) + le16(0)
        + le32(0) + le32(ba) + le32(a.sample_rate * ba) + le32(0) + le32(0) + le32(0) + le32(
        0xFFFFFFFF,
    ) + le32(ba) + le16(0) + le16(0) + le16(0) + le16(0)
}

/// The `strf` body of an audio track: a WAVEFORMATEX (18 bytes).
pub open spec fn audio_strf(a: AviAudioTrack) -> Seq<u8> {
    let ba = audio_block_align(a);
    le16(a.format_tag as int) + le16(a.channels as int) + le32(a.sample_rate as int) + le32(
        a.sample_rate * ba,
    ) + le16(ba) + le16(a.bit_depth as int) + le16(0)
}

/// A `LIST strl` chunk holding a `strh` and a `strf` chunk.
pub open spec fn strl_list(strh: Seq<u8>, strf: Seq<u8>) -> Seq<u8> {
    let strl = fcc(0x73, 0x74, 0x72, 0x68) + le32(strh.len() as int) + strh + fcc(0x73, 0x74, 0x72, 0x66)
        + le32(strf.len() as int) + strf;
    fcc(0x4c, 0x49, 0x53, 0x54) + le32(strl.len() + 4int) + fcc(0x73, 0x74, 0x72, 0x6c) + strl
}

/// The body of the `hdrl` list: the main header, then a stream list per track.
pub open spec fn hdrl_body(video: Option<AviVideoTrack>, audio: Option<AviAudioTrack>) -> Seq<u8> {
    fcc(0x61, 0x76, 0x69, 0x68) + le32(56) + avih_body(video, audio) + (match video {
        Some(v) => strl_list(video_strh(v), video_strf(v)),
        None => Seq::empty(),
    }) + (match audio {
        Some(a) => strl_list(audio_strh(a), audio_strf(a)),
        None => Seq::empty(),
    })
}

/// The `LIST hdrl` chunk.
pub open spec fn hdrl_list(video: Option<AviVideoTrack>, audio: Option<AviAudioTrack>) -> Seq<u8> {
    fcc(0x4c, 0x49, 0x53, 0x54) + le32(hdrl_body(video, audio).len() + 4int) + fcc(0x68, 0x64, 0x72, 0x6c)
        + hdrl_body(video, audio)
}

/// What a new muxer writes: the RIFF header with its size left zero, the `hdrl` list, and the
/// opening of the `movi` list with its size left zero.
pub open spec fn avi_header_bytes(video: Option<AviVideoTrack>, audio: Option<AviAudioTrack>) -> Seq<u8> {
    fcc(0x52, 0x49, 0x46, 0x46) + le32(0) + fcc(0x41, 0x56, 0x49, 0x20) + hdrl_list(video, audio) + (
    fcc(0x4c, 0x49, 0x53, 0x54) + le32(0) + fcc(0x6d, 0x6f, 0x76, 0x69))
}

/// The chunk id of a packet of stream `id`: the stream's position in two decimal digits, then
/// `dc` for video or `wb` for anything else (a stream that is not there counts as audio at 0).
pub open spec fn chunk_id_spec(items: Seq<Stream>, id: u32) -> Seq<u8> {
    let (v, idx) = match first_with_id(items, id) {
        Some(i) => (items[i].kind == StreamKind::Video, items[i].index as int),
        None => (false, 0int),
    };
    seq![
        (48 + idx / 10) as u8,
        (48 + idx % 10) as u8,
        if v { 0x64u8 } else { 0x77u8 },
        if v { 0x63u8 } else { 0x62u8 },
    ]
}

/// Whether stream `id` is there and carries video.
pub open spec fn is_video_stream(items: Seq<Stream>, id: u32) -> bool {
    match first_with_id(items, id) {
        Some(i) => items[i].kind == StreamKind::Video,
        None => false,
    }
}

/// The bytes of one index entry.
pub open spec fn entry_bytes(e: IndexEntry) -> Seq<u8> {
    e.chunk_id@ + le32(e.flags as int) + le32(e.offset as int) + le32(e.size as int)
}

/// The bytes of index entries, in order.
pub open spec fn entries_bytes(es: Seq<IndexEntry>) -> Seq<u8>
    decreases es.len(),
{
    if es.len() == 0 {
        Seq::empty()
    } else {
        entries_bytes(es.drop_last()) + entry_bytes(es.last())
    }
}

/// The `idx1` chunk.
pub open spec fn idx1_bytes(es: Seq<IndexEntry>) -> Seq<u8> {
    fcc(0x69, 0x64, 0x78, 0x31) + le32(((es.len() * 16) as u32) as int) + entries_bytes(es)
}

/// The bytes a packet chunk takes: id, size, data, and a pad byte after odd data.
pub open spec fn packet_chunk(id: Seq<u8>, data: Seq<u8>) -> Seq<u8> {
    let n = (data.len() as u32) as int;
    id + le32(n) + data + (if n % 2 == 1 { seq![0u8] } else { Seq::empty() })
}

proof fn lemma_entries_len(es: Seq<IndexEntry>)
    ensures
        entries_bytes(es).len() == es.len() * 16,
    decreases es.len(),
{
    if es.len() > 0 {
        lemma_entries_len(es.drop_last());
    }
}

fn avih_chunk(video: &Option<AviVideoTrack>, audio: &Option<AviAudioTrack>) -> (r: Vec<u8>)
    requires
        tracks_ok(*video, *audio),
    ensures
        r@ == fcc(0x61, 0x76, 0x69, 0x68) + le32(56) + avih_body(*video, *audio),
{
    let num_streams: u32 = (if video.is_some() { 1u32 } else { 0 }) + (if audio.is_some() { 1u32 } else { 0 });
    let (fps, width, height) = match video {
        Some(v) => (v.fps, v.width, v.height),
        None => (30u32, 0u32, 0u32),
    };
    let mut b: Vec<u8> = Vec::new();
    push_fcc(&mut b, 0x61, 0x76, 0x69, 0x68);
    assert(b@ =~= fcc(0x61, 0x76, 0x69, 0x68));
    push_le32(&mut b, 56);
    let mut avih: Vec<u8> = Vec::new();
    push_le32(&mut avih, 1_000_000u32 / fps);
    assert(avih@ =~= le32((1_000_000u32 / fps) as int));
    push_le32(&mut avih, 0);
    push_le32(&mut avih, 0);
    push_le32(&mut avih, 0x10);
    push_le32(&mut avih, 0);
    push_le32(&mut avih, 0);
    push_le32(&mut avih, num_streams);
    push_le32(&mut avih, 0);
    push_le32(&mut avih, width);
    push_le32(&mut avih, height);
    push_zeros(&mut avih, 16);
    assert(avih@ =~= avih_body(*video, *audio));
    push_all(&mut b, avih.as_slice());
    b
}

fn push_strl_list(out: &mut Vec<u8>, strh: &Vec<u8>, strf: &Vec<u8>)
    requires
        strh@.len() + strf@.len() + 20 <= u32::MAX,
    ensures
        final(out)@ == old(out)@ + strl_list(strh@, strf@),
{
    let mut strl: Vec<u8> = Vec::new();
    push_fcc(&mut strl, 0x73, 0x74, 0x72, 0x68);
    assert(strl@ =~= fcc(0x73, 0x74, 0x72, 0x68));
    push_le32(&mut strl, strh.len() as u32);
    push_all(&mut strl, strh.as_slice());
    push_fcc(&mut strl, 0x73, 0x74, 0x72, 0x66);
    push_le32(&mut strl, strf.len() as u32);
    push_all(&mut strl, strf.as_slice());
    let mut list: Vec<u8> = Vec::new();
    push_fcc(&mut list, 0x4c, 0x49, 0x53, 0x54);
    assert(list@ =~= fcc(0x4c, 0x49, 0x53, 0x54));
    push_le32(&mut list, (strl.len() + 4) as u32);
    push_fcc(&mut list, 0x73, 0x74, 0x72, 0x6c);
    push_all(&mut list, strl.as_slice());
    push_all(out, list.as_slice());
}

fn video_strh_bytes(v: &AviVideoTrack) -> (r: Vec<u8>)
    ensures
        r@ == video_strh(*v),
{
    let mut b: Vec<u8> = Vec::new();
    push_fcc(&mut b, 0x76, 0x69, 0x64, 0x73);
    assert(b@ =~= fcc(0x76, 0x69, 0x64, 0x73));
    push_all(&mut b, &v.fourcc);
    push_le32(&mut b, 0);
    push_le16(&mut b, 0);
    push_le16(&mut b, 0);
    push_le32(&mut b, 0);
    push_le32(&mut b, 1);
    push_le32(&mut b, v.fps);
    push_le32(&mut b, 0);
    push_le32(&mut b, 0);
    push_le32(&mut b, 0);
    push_le32(&mut b, 0xFFFFFFFF);
    push_le32(&mut b, 0);
    push_le16(&mut b, 0);
    push_le16(&mut b, 0);
    push_le16(&mut b, v.width as u16);
    push_le16(&mut b, v.height as u16);
    b
}

fn video_strf_bytes(v: &AviVideoTrack) -> (r: Vec<u8>)
    requires
        video_ok(*v),
    ensures
        r@ == video_strf(*v),
{
    let mut b: Vec<u8> = Vec::new();
    push_le32(&mut b, 40);
    assert(b@ =~= le32(40));
    push_le32(&mut b, v.width);
    push_le32(&mut b, v.height);
    push_le16(&mut b, 1);
    push_le16(&mut b, 24);
    push_all(&mut b, &v.fourcc);
    push_le32(&mut b, v.width * v.height * 3);
    push_le32(&mut b, 0);
    push_le32(&mut b, 0);
    push_le32(&mut b, 0);
    push_le32(&mut b, 0);
    b
}

fn audio_strh_bytes(a: &AviAudioTrack) -> (r: Vec<u8>)
    requires
        audio_ok(*a),
    ensures
        r@ == audio_strh(*a),
{
    let block_align: u16 = a.channels * (a.bit_depth / 8);
    let byte_rate: u32 = a.sample_rate * block_align as u32;
    let mut b: Vec<u8> = Vec::new();
    push_fcc(&mut b, 0x61, 0x75, 0x64, 0x73);
    assert(b@ =~= fcc(0x61, 0x75, 0x64, 0x73));
    push_le16(&mut b, a.format_tag);
    push_le16(&mut b, 0);
    push_le32(&mut b, 0);
    push_le16(&mut b, 0);
    push_le16(&mut b, 0);
    push_le32(&mut b, 0);
    push_le32(&mut b, block_align as u32);
    push_le32(&mut b, byte_rate);
    push_le32(&mut b, 0);
    push_le32(&mut b, 0);
    push_le32(&mut b, 0);
    push_le32(&mut b, 0xFFFFFFFF);
    push_le32(&mut b, block_align as u32);
    push_le16(&mut b, 0);
    push_le16(&mut b, 0);
    push_le16(&mut b, 0);
    push_le16(&mut b, 0);
    b
}

fn audio_strf_bytes(a: &AviAudioTrack) -> (r: Vec<u8>)
    requires
        audio_ok(*a),
    ensures
        r@ == audio_strf(*a),
{
    let block_align: u16 = a.channels * (a.bit_depth / 8);
    let byte_rate: u32 = a.sample_rate * block_align as u32;
    let mut b: Vec<u8> = Vec::new();
    push_le16(&mut b, a.format_tag);
    assert(b@ =~= le16(a.format_tag as int));
    push_le16(&mut b, a.channels);
    push_le32(&mut b, a.sample_rate);
    push_le32(&mut b, byte_rate);
    push_le16(&mut b, block_align);
    push_le16(&mut b, a.bit_depth);
    push_le16(&mut b, 0);
    b
}

fn idx1_chunk(index: &Vec<IndexEntry>) -> (out: Vec<u8>)
    requires
        index@.len() <= u32::MAX,
    ensures
        out@ == idx1_bytes(index@),
{
    let ghost es = index@;
    let n = index.len();
    let mut out: Vec<u8> = Vec::new();
    push_fcc(&mut out, 0x69, 0x64, 0x78, 0x31);
    assert(out@ =~= fcc(0x69, 0x64, 0x78, 0x31));
    push_le32(&mut out, ((n as u64) * 16) as u32);
    let ghost head = out@;
    let mut i: usize = 0;
    while i < n
        invariant
            n == es.len(),
            es == index@,
            i <= n,
            out@ == head + entries_bytes(es.take(i as int)),
        decreases n - i,
    {
        let e = index[i];
        push_all(&mut out, &e.chunk_id);
        push_le32(&mut out, e.flags);
        push_le32(&mut out, e.offset);
        push_le32(&mut out, e.size);
        assert(es.take(i + 1).drop_last() =~= es.take(i as int));
        i = i + 1;
        assert(out@ =~= head + entries_bytes(es.take(i as int)));
    }
    assert(es.take(n as int) =~= es);
    out
}

/// Overwrites the four bytes at `pos` with `v`, little-endian.
fn patch_u32(w: &mut ByteWriter, pos: u64, v: u32)
    requires
        pos + 4 <= old(w).contents().len(),
    ensures
        final(w).contents() == splice(old(w).contents(), pos as int, le32(v as int)),
        final(w).position() == pos + 4,
        final(w).contents().len() == old(w).contents().len(),
{
    proof {
        w.lemma_position();
    }
    let _ = w.seek(pos);
    let _ = w.write_u32_le(v);
    proof {
        lemma_splice(old(w).contents(), pos as int, le32(v as int));
    }
}

/// The AVI muxer: writes the headers up front, then one chunk per packet, then the index.
pub struct AviMuxer {
    writer: ByteWriter,
    streams: Streams,
    video: Option<AviVideoTrack>,
    audio: Option<AviAudioTrack>,
    index: Vec<IndexEntry>,
    movi_start: u64,
    video_frames: u32,
    total_data_size: u32,
    riff_size_pos: u64,
    movi_size_pos: u64,
    total_frames_pos: u64,
}

impl AviMuxer {
    /// The sink.
    pub closed spec fn spec_writer(&self) -> ByteWriter {
        self.writer
    }

    /// The streams.
    pub closed spec fn spec_streams(&self) -> Streams {
        self.streams
    }

    /// The index entries written so far, in order.
    pub closed spec fn spec_index(&self) -> Seq<IndexEntry> {
        self.index@
    }

    /// Where the `movi` data begins.
    pub closed spec fn spec_movi_start(&self) -> u64 {
        self.movi_start
    }

    /// Where the RIFF size field lies.
    pub closed spec fn spec_riff_size_pos(&self) -> u64 {
        self.riff_size_pos
    }

    /// Where the `movi` size field lies.
    pub closed spec fn spec_movi_size_pos(&self) -> u64 {
        self.movi_size_pos
    }

    /// Where the frame count that `finalize` patches lies.
    pub closed spec fn spec_total_frames_pos(&self) -> u64 {
        self.total_frames_pos
    }

    /// The video packets written so far.
    pub closed spec fn spec_video_frames(&self) -> u32 {
        self.video_frames
    }

    /// The bytes the packet chunks take so far.
    pub closed spec fn spec_total_data_size(&self) -> u32 {
        self.total_data_size
    }

    /// The positions lie in order inside what was written, the streams sit at positions 0
    /// and 1, and every index entry stands for at least eight bytes of chunk data.
    pub closed spec fn wf(&self) -> bool {
        &&& self.riff_size_pos + 4 <= self.total_frames_pos
        &&& self.total_frames_pos + 4 <= self.movi_size_pos
        &&& self.movi_size_pos + 8 == self.movi_start
        &&& self.movi_start <= self.writer.position()
        &&& self.writer.position() <= self.writer.contents().len()
        &&& self.streams.items@.len() <= 2
        &&& forall|i: int| 0 <= i < self.streams.items@.len() ==> #[trigger] self.streams.items@[i].index < 2
        &&& self.index@.len() * 8 <= self.total_data_size
    }

    /// Whether a packet of `len` bytes can be taken without a counter overflowing.
    pub open spec fn can_take(&self, len: nat, id: u32) -> bool {
        &&& self.spec_total_data_size() + 8 + (len as u32) + (len as u32) % 2 <= u32::MAX
        &&& is_video_stream(self.spec_streams().items@, id) ==> self.spec_video_frames() < u32::MAX
    }

    /// Starts an AVI file at the writer's position: the streams are a video stream (id 0,
    /// codec `h264`) if there is a video track and an audio stream (id 1, codec `pcm_s16le`)
    /// if there is an audio track, both in milliseconds.
    #[verifier::rlimit(50)]
    pub fn new(writer: ByteWriter, video: Option<AviVideoTrack>, audio: Option<AviAudioTrack>) -> (r: Result<
        Self,
        Error,
    >)
        requires
            tracks_ok(video, audio),
        ensures
            ({
                let p = writer.position();
                let bytes = avi_header_bytes(video, audio);
                &&& p + bytes.len() <= usize::MAX ==> (r matches Ok(m) && {
                    &&& m.wf()
                    &&& m.spec_writer().contents() == splice(writer.contents(), p as int, bytes)
                    &&& m.spec_writer().position() == p + bytes.len()
                    &&& m.spec_riff_size_pos() == p + 4
                    &&& m.spec_total_frames_pos() == p + 48
                    &&& m.spec_movi_size_pos() == p + bytes.len() - 8
                    &&& m.spec_movi_start() == p + bytes.len()
                    &&& m.spec_index() == Seq::<IndexEntry>::empty()
                    &&& m.spec_video_frames() == 0
                    &&& m.spec_total_data_size() == 0
                    &&& m.spec_streams().items@.len() == (if video is Some { 1int } else { 0 }) + (if audio is Some {
                        1int
                    } else {
                        0
                    })
                    &&& video is Some ==> {
                        let s = m.spec_streams().items@[0];
                        &&& s.id == 0 && s.index == 0 && s.kind == StreamKind::Video
                        &&& s.codec@ == "h264"@ && s.time == Time { num: 1, den: 1000 }
                    }
                    &&& audio is Some ==> {
                        let s = m.spec_streams().items@.last();
                        &&& s.id == 1 && s.index == (if video is Some { 1usize } else { 0 })
                        &&& s.kind == StreamKind::Audio
                        &&& s.codec@ == "pcm_s16le"@ && s.time == Time { num: 1, den: 1000 }
                    }
                })
                &&& p + bytes.len() > usize::MAX ==> r == Err::<Self, Error>(Error::Overflow)
            }),
    {
        let mut writer = writer;
        let ghost c0 = writer.contents();
        let ghost p0 = writer.position() as int;
        let ghost bytes = avi_header_bytes(video, audio);
        proof {
            writer.lemma_position();
        }
        let mut streams = Streams::new_empty();
        let mut track_idx: usize = 0;
        if video.is_some() {
            let stream = Stream::new(0, track_idx, StreamKind::Video, String::from_str("h264"), Time::new(1, 1000));
            streams.add(stream);
            track_idx = track_idx + 1;
        }
        if audio.is_some() {
            let stream = Stream::new(
                1,
                track_idx,
                StreamKind::Audio,
                String::from_str("pcm_s16le"),
                Time::new(1, 1000),
            );
            streams.add(stream);
        }
        let ghost a = fcc(0x52, 0x49, 0x46, 0x46) + le32(0) + fcc(0x41, 0x56, 0x49, 0x20);
        let ghost h = hdrl_list(video, audio);
        let ghost c = fcc(0x4c, 0x49, 0x53, 0x54) + le32(0) + fcc(0x6d, 0x6f, 0x76, 0x69);
        assert(bytes == a + h + c);
        let mut head: Vec<u8> = Vec::new();
        push_fcc(&mut head, 0x52, 0x49, 0x46, 0x46);
        assert(head@ =~= fcc(0x52, 0x49, 0x46, 0x46));
        push_le32(&mut head, 0);
        push_fcc(&mut head, 0x41, 0x56, 0x49, 0x20);
        let start = writer.stream_position();
        match writer.write_all(head.as_slice()) {
            Ok(()) => {},
            Err(e) => {
                return Err(e);
            },
        }
        let riff_size_pos = start + 4;
        let total_frames_pos = match Self::write_headers(&mut writer, &video, &audio) {
            Ok(t) => t,
            Err(e) => {
                return Err(e);
            },
        };
        proof {
            lemma_splice_concat(c0, p0, a, h);
        }
        let mut tail: Vec<u8> = Vec::new();
        push_fcc(&mut tail, 0x4c, 0x49, 0x53, 0x54);
        assert(tail@ =~= fcc(0x4c, 0x49, 0x53, 0x54));
        push_le32(&mut tail, 0);
        push_fcc(&mut tail, 0x6d, 0x6f, 0x76, 0x69);
        let tail_start = writer.stream_position();
        match writer.write_all(tail.as_slice()) {
            Ok(()) => {},
            Err(e) => {
                return Err(e);
            },
        }
        let movi_size_pos = tail_start + 4;
        proof {
            lemma_splice(c0, p0, a);
            lemma_splice_concat(c0, p0, a + h, c);
        }
        let movi_start = writer.stream_position();
        assert(hdrl_list(video, audio).len() >= 76);
        assert(writer.contents() == splice(c0, p0, bytes));
        assert(streams.items@.len() <= 2);
        let m = AviMuxer {
            writer,
            streams,
            video,
            audio,
            index: Vec::new(),
            movi_start,
            video_frames: 0,
            total_data_size: 0,
            riff_size_pos,
            movi_size_pos,
            total_frames_pos,
        };
        Ok(m)
    }

    /// Writes the `LIST hdrl` chunk at the writer's position and returns where the frame
    /// count in the main header (`dwTotalFrames`) lies: 36 bytes after that position.
    #[verifier::rlimit(50)]
    fn write_headers(w: &mut ByteWriter, video: &Option<AviVideoTrack>, audio: &Option<AviAudioTrack>) -> (r: Result<
        u64,
        Error,
    >)
        requires
            tracks_ok(*video, *audio),
        ensures
            old(w).position() + hdrl_list(*video, *audio).len() <= usize::MAX ==> r == Ok::<u64, Error>(
                (old(w).position() + 36) as u64,
            ) && final(w).contents() == splice(old(w).contents(), old(w).position() as int, hdrl_list(*video, *audio))
                && final(w).position() == old(w).position() + hdrl_list(*video, *audio).len(),
            old(w).position() + hdrl_list(*video, *audio).len() > usize::MAX ==> r == Err::<u64, Error>(
                Error::Overflow,
            ) && *final(w) == *old(w),
    {
        let mut hdrl = avih_chunk(video, audio);
        if let Some(v) = video {
            let strh = video_strh_bytes(v);
            let strf = video_strf_bytes(v);
            push_strl_list(&mut hdrl, &strh, &strf);
        }
        if let Some(a) = audio {
            let strh = audio_strh_bytes(a);
            let strf = audio_strf_bytes(a);
            push_strl_list(&mut hdrl, &strh, &strf);
        }
        assert(hdrl@ == hdrl_body(*video, *audio));
        let mut out: Vec<u8> = Vec::new();
        push_fcc(&mut out, 0x4c, 0x49, 0x53, 0x54);
        assert(out@ =~= fcc(0x4c, 0x49, 0x53, 0x54));
        push_le32(&mut out, (hdrl.len() + 4) as u32);
        push_fcc(&mut out, 0x68, 0x64, 0x72, 0x6c);
        push_all(&mut out, hdrl.as_slice());
        let start = w.stream_position();
        w.write_all(out.as_slice())?;
        Ok(start + 36)
    }

    /// The chunk id for packets of stream `stream_id`.
    fn chunk_id_for_stream(&self, stream_id: u32) -> (id: [u8; 4])
        requires
            self.wf(),
        ensures
            id@ == chunk_id_spec(self.streams.items@, stream_id),
    {
        let stream = self.streams.get(stream_id);
        let is_video = match stream {
            Some(s) => s.video_kind(),
            None => false,
        };
        let idx: usize = match stream {
            Some(s) => s.index,
            None => 0,
        };
        proof {
            match first_with_id(self.streams.items@, stream_id) {
                Some(i) => {
                    crate::media::lemma_first_with_id(self.streams.items@, stream_id);
                    assert(self.streams.items@[i].index < 2);
                },
                None => {},
            }
        }
        let d0: u8 = 48 + (idx / 10) as u8;
        let d1: u8 = 48 + (idx % 10) as u8;
        let id = if is_video {
            [d0, d1, 0x64, 0x63]
        } else {
            [d0, d1, 0x77, 0x62]
        };
        assert(id@ =~= chunk_id_spec(self.streams.items@, stream_id));
        id
    }

    /// The sink, with everything written so far.
    pub fn writer(&self) -> (w: &ByteWriter)
        ensures
            *w == self.spec_writer(),
    {
        &self.writer
    }

    /// The streams.
    pub fn streams(&self) -> (s: &Streams)
        ensures
            *s == self.spec_streams(),
    {
        &self.streams
    }

    /// Writes a packet as a chunk, word-aligned, and records it in the index: flagged as a
    /// keyframe or not, at its offset from the start of the `movi` data.
    pub fn write(&mut self, packet: Packet) -> (r: Result<(), Error>)
        requires
            old(self).wf(),
            old(self).can_take(packet.data@.len(), packet.stream_id),
        ensures
            ({
                let p = old(self).spec_writer().position();
                let id = chunk_id_spec(old(self).spec_streams().items@, packet.stream_id);
                let bytes = packet_chunk(id, packet.data@);
                let n = (packet.data@.len() as u32) as int;
                &&& p + bytes.len() <= usize::MAX ==> r is Ok && final(self).wf()
                    && final(self).spec_writer().contents() == splice(old(self).spec_writer().contents(), p as int, bytes)
                    && final(self).spec_writer().position() == p + bytes.len()
                    && final(self).spec_index().len() == old(self).spec_index().len() + 1
                    && final(self).spec_index().drop_last() == old(self).spec_index()
                    && final(self).spec_index().last().chunk_id@ == id
                    && final(self).spec_index().last().flags == (if packet.keyframe { 0x10u32 } else { 0u32 })
                    && final(self).spec_index().last().offset == ((p - old(self).spec_movi_start()) as u32)
                    && final(self).spec_index().last().size == n
                    && final(self).spec_total_data_size() == old(self).spec_total_data_size() + 8 + n + n % 2
                    && final(self).spec_video_frames() == old(self).spec_video_frames() + (if is_video_stream(
                        old(self).spec_streams().items@,
                        packet.stream_id,
                    ) { 1int } else { 0 })
                    && final(self).spec_streams() == old(self).spec_streams()
                    && final(self).spec_movi_start() == old(self).spec_movi_start()
                    && final(self).spec_riff_size_pos() == old(self).spec_riff_size_pos()
                    && final(self).spec_movi_size_pos() == old(self).spec_movi_size_pos()
                    && final(self).spec_total_frames_pos() == old(self).spec_total_frames_pos()
                &&& p + bytes.len() > usize::MAX ==> r == Err::<(), Error>(Error::Overflow) && *final(self) == *old(self)
            }),
    {
        let chunk_id = self.chunk_id_for_stream(packet.stream_id);
        let data_len = packet.data.len() as u32;
        let pos = self.writer.stream_position();
        let offset = (pos - self.movi_start) as u32;
        let mut chunk: Vec<u8> = Vec::new();
        push_all(&mut chunk, &chunk_id);
        assert(chunk@ =~= chunk_id@);
        push_le32(&mut chunk, data_len);
        push_all(&mut chunk, packet.data.as_slice());
        if data_len % 2 != 0 {
            chunk.push(0);
        }
        assert(chunk@ =~= packet_chunk(chunk_id@, packet.data@));
        self.writer.write_all(chunk.as_slice())?;
        let flags: u32 = if packet.keyframe { 0x10 } else { 0 };
        self.index.push(IndexEntry { chunk_id, flags, offset, size: data_len });
        self.total_data_size = self.total_data_size + 8 + data_len + data_len % 2;
        let is_video = match self.streams.get(packet.stream_id) {
            Some(s) => s.video_kind(),
            None => false,
        };
        if is_video {
            self.video_frames = self.video_frames + 1;
        }
        proof {
            self.writer.lemma_position();
        }
        Ok(())
    }

    /// Writes the `idx1` index, then patches the `movi` size (four plus the chunk bytes), the
    /// RIFF size (from after its field to the end of the index) and the frame count.
    #[verifier::rlimit(50)]
    pub fn finalize(&mut self) -> (r: Result<(), Error>)
        requires
            old(self).wf(),
        ensures
            ({
                let p = old(self).spec_writer().position();
                let ix = idx1_bytes(old(self).spec_index());
                let end = p + ix.len();
                let c1 = splice(old(self).spec_writer().contents(), p as int, ix);
                let c2 = splice(c1, old(self).spec_movi_size_pos() as int, le32(((4 + old(self).spec_total_data_size()) as u32) as int));
                let c3 = splice(
                    c2,
                    old(self).spec_riff_size_pos() as int,
                    le32(((end - old(self).spec_riff_size_pos() - 4) as u32) as int),
                );
                let c4 = splice(c3, old(self).spec_total_frames_pos() as int, le32(old(self).spec_video_frames() as int));
                &&& end <= usize::MAX ==> r is Ok && final(self).spec_writer().contents() == c4
                    && final(self).spec_writer().position() == old(self).spec_total_frames_pos() + 4
                &&& end > usize::MAX ==> r == Err::<(), Error>(Error::Overflow) && *final(self) == *old(self)
            }),
    {
        let out = idx1_chunk(&self.index);
        self.writer.write_all(out.as_slice())?;
        let file_end = self.writer.stream_position();
        proof {
            self.writer.lemma_position();
        }
        let movi_data_size = (self.movi_start - self.movi_size_pos - 4) + self.total_data_size as u64;
        patch_u32(&mut self.writer, self.movi_size_pos, movi_data_size as u32);
        let riff_size = (file_end - self.riff_size_pos - 4) as u32;
        patch_u32(&mut self.writer, self.riff_size_pos, riff_size);
        patch_u32(&mut self.writer, self.total_frames_pos, self.video_frames);
        Ok(())
    }
}

} // verus!
