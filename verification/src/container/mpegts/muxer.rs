use crate::error::Error;
use crate::io::{be16, be32, fill, lemma_splice_concat, push_all, push_fill, splice, ByteWriter};
use crate::media::{first_with_id, Packet, Stream, StreamKind, Streams, Time};
use vstd::prelude::*;

verus! {

broadcast use vstd::std_specs::control_flow::group_control_flow_axioms;

/// The size of every transport stream packet.
pub const TS_PACKET_SIZE: usize = 188;

/// The byte every transport stream packet starts with.
pub const SYNC_BYTE: u8 = 0x47;

/// The PID of the program association table.
pub const PAT_PID: u16 = 0x0000;

/// The PID of the program map table.
pub const PMT_PID: u16 = 0x1000;

/// The PID of the video stream.
pub const VIDEO_PID: u16 = 0x0100;

/// The PID of the audio stream.
pub const AUDIO_PID: u16 = 0x0101;

/// Stream type: H.264 video.
pub const STREAM_TYPE_H264: u8 = 0x1B;

/// Stream type: H.265 video.
pub const STREAM_TYPE_H265: u8 = 0x24;

/// Stream type: MPEG-2 video.
pub const STREAM_TYPE_MPEG2_VIDEO: u8 = 0x02;

/// Stream type: AAC audio in ADTS frames.
pub const STREAM_TYPE_ADTS_AAC: u8 = 0x0F;

/// Stream type: MPEG-2 audio.
pub const STREAM_TYPE_MPEG2_AUDIO: u8 = 0x04;

/// Stream type: private data, used for PCM.
pub const STREAM_TYPE_PRIVATE: u8 = 0x06;

/// The video track of a transport stream.
#[derive(Debug, Clone, Copy)]
pub struct TsVideoTrack {
    pub stream_type: u8,
}

/// The audio track of a transport stream.
#[derive(Debug, Clone, Copy)]
pub struct TsAudioTrack {
    pub stream_type: u8,
}

impl TsVideoTrack {
    /// An H.264 track.
    pub fn h264() -> (t: Self)
        ensures
            t.stream_type == STREAM_TYPE_H264,
    {
        TsVideoTrack { stream_type: STREAM_TYPE_H264 }
    }

    /// An H.265 track.
    pub fn h265() -> (t: Self)
        ensures
            t.stream_type == STREAM_TYPE_H265,
    {
        TsVideoTrack { stream_type: STREAM_TYPE_H265 }
    }

    /// An MPEG-2 video track.
    pub fn mpeg2() -> (t: Self)
        ensures
            t.stream_type == STREAM_TYPE_MPEG2_VIDEO,
    {
        TsVideoTrack { stream_type: STREAM_TYPE_MPEG2_VIDEO }
    }
}

impl TsAudioTrack {
    /// An AAC track.
    pub fn aac() -> (t: Self)
        ensures
            t.stream_type == STREAM_TYPE_ADTS_AAC,
    {
        TsAudioTrack { stream_type: STREAM_TYPE_ADTS_AAC }
    }

    /// An MPEG-2 audio track.
    pub fn mp2() -> (t: Self)
        ensures
            t.stream_type == STREAM_TYPE_MPEG2_AUDIO,
    {
        TsAudioTrack { stream_type: STREAM_TYPE_MPEG2_AUDIO }
    }

    /// A PCM track, carried as private data.
    pub fn pcm() -> (t: Self)
        ensures
            t.stream_type == STREAM_TYPE_PRIVATE,
    {
        TsAudioTrack { stream_type: STREAM_TYPE_PRIVATE }
    }
}

/// One step of the MPEG-2 CRC: shift left, and fold in the polynomial where a one falls out.
pub open spec fn crc_shift(c: u32) -> u32 {
    if c & 0x8000_0000u32 != 0 { (c << 1u32) ^ 0x04C1_1DB7u32 } else { c << 1u32 }
}

/// `k` steps of the CRC.
pub open spec fn crc_bits(c: u32, k: nat) -> u32
    decreases k,
{
    if k == 0 { c } else { crc_shift(crc_bits(c, (k - 1) as nat)) }
}

/// The CRC after the bytes `s`, starting from `c`.
pub open spec fn crc_fold(c: u32, s: Seq<u8>) -> u32
    decreases s.len(),
{
    if s.len() == 0 {
        c
    } else {
        crc_bits(crc_fold(c, s.drop_last()) ^ ((s.last() as u32) << 24u32), 8)
    }
}

/// The CRC-32 of MPEG-2 sections (polynomial 0x04C11DB7, initial value all ones, no final
/// inversion).
pub open spec fn crc32_spec(s: Seq<u8>) -> u32 {
    crc_fold(0xFFFF_FFFFu32, s)
}

/// The CRC-32 of MPEG-2 sections.
pub fn crc32_mpeg2(data: &[u8]) -> (crc: u32)
    ensures
        crc == crc32_spec(data@),
{
    let mut crc: u32 = 0xFFFF_FFFF;
    let mut i: usize = 0;
    while i < data.len()
        invariant
            i <= data@.len(),
            crc == crc_fold(0xFFFF_FFFFu32, data@.take(i as int)),
        decreases data@.len() - i,
    {
        let byte = data[i];
        crc = crc ^ ((byte as u32) << 24u32);
        let ghost start = crc;
        let mut k: u32 = 0;
        while k < 8
            invariant
                k <= 8,
                crc == crc_bits(start, k as nat),
            decreases 8 - k,
        {
            if crc & 0x8000_0000 != 0 {
                crc = (crc << 1u32) ^ 0x04C1_1DB7;
            } else {
                crc = crc << 1u32;
            }
            k = k + 1;
        }
        assert(data@.take(i + 1).drop_last() =~= data@.take(i as int));
        i = i + 1;
    }
    assert(data@.take(i as int) =~= data@);
    crc
}

/// The two bytes after a PID's reserved bits.
pub open spec fn pid_bytes(pid: u16) -> Seq<u8> {
    seq![0xE0u8 | (((pid >> 8u16) as u8) & 0x1Fu8), pid as u8]
}

/// The section-length bytes of a table section whose length field is `n`.
pub open spec fn section_len_bytes(n: usize) -> Seq<u8> {
    seq![0xB0u8 | (((n >> 8usize) as u8) & 0x0Fu8), n as u8]
}

/// The program association table section, without its CRC: program 1 on the PMT PID.
pub open spec fn pat_section() -> Seq<u8> {
    seq![0x00u8] + section_len_bytes(13) + seq![0x00u8, 0x01, 0xC1, 0x00, 0x00, 0x00, 0x01] + pid_bytes(PMT_PID)
}

/// The entry of an elementary stream in the program map table.
pub open spec fn pmt_entry(stream_type: u8, pid: u16) -> Seq<u8> {
    seq![stream_type] + pid_bytes(pid) + seq![0xF0u8, 0x00]
}

/// The program map table section, without its CRC: the PCR on the video PID if there is
/// video, else on the audio PID, then the video and the audio entries.
pub open spec fn pmt_section(video: Option<TsVideoTrack>, audio: Option<TsAudioTrack>) -> Seq<u8> {
    let n = 13 + (if video is Some { 5int } else { 0 }) + (if audio is Some { 5int } else { 0 });
    seq![0x02u8] + section_len_bytes(n as usize) + seq![0x00u8, 0x01, 0xC1, 0x00, 0x00] + pid_bytes(
        if video is Some { VIDEO_PID } else { AUDIO_PID },
    ) + seq![0xF0u8, 0x00] + (match video {
        Some(v) => pmt_entry(v.stream_type, VIDEO_PID),
        None => Seq::empty(),
    }) + (match audio {
        Some(a) => pmt_entry(a.stream_type, AUDIO_PID),
        None => Seq::empty(),
    })
}

/// The payload that carries a table section: a zero pointer field, the section, its CRC.
pub open spec fn psi_payload(section: Seq<u8>) -> Seq<u8> {
    seq![0x00u8] + section + be32(crc32_spec(section) as int)
}

/// One 188-byte transport stream packet: the header, the adaptation field if there is one,
/// as much of the payload as fits, and 0xFF after it.
pub open spec fn ts_packet(pid: u16, cc: u8, pusi: bool, adapt: Option<Seq<u8>>, payload: Seq<u8>) -> Seq<u8> {
    let header = seq![
        SYNC_BYTE,
        (if pusi { 0x40u8 } else { 0x00u8 }) | (((pid >> 8u16) as u8) & 0x1Fu8),
        pid as u8,
        (if adapt is Some { 0x20u8 } else { 0x00u8 }) | (if payload.len() > 0 { 0x10u8 } else { 0x00u8 }) | (cc
            & 0x0Fu8),
    ];
    let body = match adapt {
        Some(a) => seq![a.len() as u8] + a,
        None => Seq::empty(),
    };
    let space = 184 - body.len();
    let n = if payload.len() <= space { payload.len() as int } else { space };
    header + body + payload.take(n) + fill(0xFF, (space - n) as nat)
}

/// The five bytes of a presentation time stamp, with its marker bits.
pub open spec fn pts_bytes(pts: u64) -> Seq<u8> {
    seq![
        0x21u8 | (((pts >> 29u64) & 0x0Eu64) as u8),
        ((pts >> 22u64) & 0xFFu64) as u8,
        (((pts >> 14u64) & 0xFEu64) | 0x01u64) as u8,
        ((pts >> 7u64) & 0xFFu64) as u8,
        (((pts << 1u64) & 0xFEu64) | 0x01u64) as u8,
    ]
}

/// A PES packet: start code, stream id, length (zero where it does not fit 16 bits), flags
/// saying a PTS follows, the PTS and the data.
pub open spec fn pes_bytes(stream_id: u8, pts: u64, data: Seq<u8>) -> Seq<u8> {
    let n: int = 8 + data.len() as int;
    seq![0x00u8, 0x00, 0x01, stream_id] + (if n <= 0xFFFF { be16(n) } else { seq![0x00u8, 0x00] }) + seq![
        0x80u8,
        0x80,
        0x05,
    ] + pts_bytes(pts) + data
}

/// The adaptation field that pads the last packet of a PES packet with `rest` bytes left: a
/// flags byte and 0xFF stuffing, or nothing but its length byte where one byte is missing.
pub open spec fn stuffing(rest: int) -> Seq<u8> {
    if rest == 183 { Seq::empty() } else { seq![0x00u8] + fill(0xFF, (182 - rest) as nat) }
}

/// A PES packet cut into transport stream packets: 184 payload bytes each, the last one
/// padded with an adaptation field; the continuity counter goes up by one per packet.
pub open spec fn ts_split(pid: u16, cc: u8, first: bool, pes: Seq<u8>) -> Seq<u8>
    decreases pes.len(),
{
    if pes.len() == 0 {
        Seq::empty()
    } else if pes.len() >= 184 {
        ts_packet(pid, cc, first, None, pes.take(184)) + ts_split(pid, (cc + 1) as u8 & 0x0F, false, pes.skip(184))
    } else {
        ts_packet(pid, cc, first, Some(stuffing(pes.len() as int)), pes)
    }
}

/// The continuity counter after `ts_split`.
pub open spec fn ts_cc(cc: u8, n: int) -> u8
    decreases n,
{
    if n <= 0 {
        cc
    } else if n >= 184 {
        ts_cc((cc + 1) as u8 & 0x0F, n - 184)
    } else {
        (cc + 1) as u8 & 0x0F
    }
}

/// The number of packets `ts_split` makes of `n` bytes.
pub open spec fn ts_count(n: int) -> int {
    (n + 183) / 184
}

/// Keeping the low four bits of a counter keeps it below 16.
pub proof fn lemma_low_nibble(x: u8)
    ensures
        x & 0x0F < 16,
        x < 16 ==> x & 0x0F == x,
{
    assert(x & 0x0F < 16) by (bit_vector);
    assert(x < 16 ==> x & 0x0F == x) by (bit_vector);
}

/// The continuity counter after `ts_split` stays below 16.
pub proof fn lemma_ts_cc_bound(cc: u8, n: int)
    requires
        cc < 16,
    ensures
        ts_cc(cc, n) < 16,
    decreases n,
{
    lemma_low_nibble((cc + 1) as u8);
    if n >= 184 {
        lemma_ts_cc_bound((cc + 1) as u8 & 0x0F, n - 184);
    }
}

pub proof fn lemma_ts_packet_len(pid: u16, cc: u8, pusi: bool, adapt: Option<Seq<u8>>, payload: Seq<u8>)
    requires
        adapt matches Some(a) ==> a.len() <= 183,
    ensures
        ts_packet(pid, cc, pusi, adapt, payload).len() == 188,
{
}

pub proof fn lemma_ts_split_len(pid: u16, cc: u8, first: bool, pes: Seq<u8>)
    ensures
        ts_split(pid, cc, first, pes).len() == 188 * ts_count(pes.len() as int),
    decreases pes.len(),
{
    if pes.len() >= 184 {
        lemma_ts_packet_len(pid, cc, first, None, pes.take(184));
        lemma_ts_split_len(pid, (cc + 1) as u8 & 0x0F, false, pes.skip(184));
        assert(ts_count(pes.len() as int) == 1 + ts_count(pes.len() - 184));
    } else if pes.len() > 0 {
        lemma_ts_packet_len(pid, cc, first, Some(stuffing(pes.len() as int)), pes);
    }
}

/// Whether stream `id` is there and carries video.
pub open spec fn ts_is_video(items: Seq<Stream>, id: u32) -> bool {
    match first_with_id(items, id) {
        Some(i) => items[i].kind == StreamKind::Video,
        None => false,
    }
}

fn push_pid(v: &mut Vec<u8>, pid: u16)
    ensures
        final(v)@ == old(v)@ + pid_bytes(pid),
{
    v.push(0xE0u8 | (((pid >> 8u16) as u8) & 0x1Fu8));
    v.push(pid as u8);
    assert(final(v)@ =~= old(v)@ + pid_bytes(pid));
}

fn push_section_len(v: &mut Vec<u8>, n: usize)
    ensures
        final(v)@ == old(v)@ + section_len_bytes(n),
{
    v.push(0xB0u8 | (((n >> 8usize) as u8) & 0x0Fu8));
    v.push(n as u8);
    assert(final(v)@ =~= old(v)@ + section_len_bytes(n));
}

/// A section followed by a zero pointer field before it and its CRC after it.
fn psi_payload_bytes(section: &Vec<u8>) -> (p: Vec<u8>)
    ensures
        p@ == psi_payload(section@),
{
    let crc = crc32_mpeg2(section.as_slice());
    let mut payload: Vec<u8> = Vec::new();
    payload.push(0x00);
    push_all(&mut payload, section.as_slice());
    let b = crate::io::u32_be_bytes(crc);
    push_all(&mut payload, &b);
    assert(payload@ =~= psi_payload(section@));
    payload
}

fn pat_section_bytes() -> (s: Vec<u8>)
    ensures
        s@ == pat_section(),
{
    let mut section: Vec<u8> = Vec::new();
    section.push(0x00);
    push_section_len(&mut section, 13);
    section.push(0x00);
    section.push(0x01);
    section.push(0xC1);
    section.push(0x00);
    section.push(0x00);
    section.push(0x00);
    section.push(0x01);
    push_pid(&mut section, PMT_PID);
    assert(section@ =~= pat_section());
    section
}

fn pmt_section_bytes(video: &Option<TsVideoTrack>, audio: &Option<TsAudioTrack>) -> (s: Vec<u8>)
    ensures
        s@ == pmt_section(*video, *audio),
{
    let n: usize = 13 + (if video.is_some() { 5usize } else { 0 }) + (if audio.is_some() { 5usize } else { 0 });
    let mut section: Vec<u8> = Vec::new();
    section.push(0x02);
    push_section_len(&mut section, n);
    section.push(0x00);
    section.push(0x01);
    section.push(0xC1);
    section.push(0x00);
    section.push(0x00);
    let pcr_pid = if video.is_some() { VIDEO_PID } else { AUDIO_PID };
    push_pid(&mut section, pcr_pid);
    section.push(0xF0);
    section.push(0x00);
    let ghost head = section@;
    if let Some(v) = video {
        section.push(v.stream_type);
        push_pid(&mut section, VIDEO_PID);
        section.push(0xF0);
        section.push(0x00);
        assert(section@ =~= head + pmt_entry(v.stream_type, VIDEO_PID));
    }
    let ghost mid = section@;
    if let Some(a) = audio {
        section.push(a.stream_type);
        push_pid(&mut section, AUDIO_PID);
        section.push(0xF0);
        section.push(0x00);
        assert(section@ =~= mid + pmt_entry(a.stream_type, AUDIO_PID));
    }
    assert(section@ =~= pmt_section(*video, *audio));
    section
}

/// The PES packet of `data` at presentation time `pts`.
fn pes_packet_bytes(stream_id_byte: u8, pts: u64, data: &[u8]) -> (pes: Vec<u8>)
    requires
        data@.len() + 8 <= usize::MAX,
    ensures
        pes@ == pes_bytes(stream_id_byte, pts, data@),
{
    let mut pes: Vec<u8> = Vec::new();
    pes.push(0x00);
    pes.push(0x00);
    pes.push(0x01);
    pes.push(stream_id_byte);
    let pes_data_len = 3 + 5 + data.len();
    if pes_data_len <= 0xFFFF {
        let b = crate::io::u16_be_bytes(pes_data_len as u16);
        push_all(&mut pes, &b);
    } else {
        pes.push(0x00);
        pes.push(0x00);
    }
    pes.push(0x80);
    pes.push(0x80);
    pes.push(0x05);
    let ghost head = pes@;
    pes.push(0x21u8 | (((pts >> 29u64) & 0x0Eu64) as u8));
    pes.push(((pts >> 22u64) & 0xFFu64) as u8);
    pes.push((((pts >> 14u64) & 0xFEu64) | 0x01u64) as u8);
    pes.push(((pts >> 7u64) & 0xFFu64) as u8);
    pes.push((((pts << 1u64) & 0xFEu64) | 0x01u64) as u8);
    assert(pes@ =~= head + pts_bytes(pts));
    push_all(&mut pes, data);
    assert(pes@ =~= pes_bytes(stream_id_byte, pts, data@));
    pes
}

/// The transport stream muxer: tables first, then each packet as a PES packet cut into
/// 188-byte packets.
pub struct TsMuxer {
    writer: ByteWriter,
    streams: Streams,
    video: Option<TsVideoTrack>,
    audio: Option<TsAudioTrack>,
    pat_cc: u8,
    pmt_cc: u8,
    video_cc: u8,
    audio_cc: u8,
    has_video: bool,
    has_audio: bool,
    packet_count: u64,
}

impl TsMuxer {
    /// The sink.
    pub closed spec fn spec_writer(&self) -> ByteWriter {
        self.writer
    }

    /// The streams.
    pub closed spec fn spec_streams(&self) -> Streams {
        self.streams
    }

    /// The tracks.
    pub closed spec fn spec_tracks(&self) -> (Option<TsVideoTrack>, Option<TsAudioTrack>) {
        (self.video, self.audio)
    }

    /// The continuity counters of the PAT, the PMT, the video and the audio PIDs.
    pub closed spec fn spec_ccs(&self) -> (u8, u8, u8, u8) {
        (self.pat_cc, self.pmt_cc, self.video_cc, self.audio_cc)
    }

    /// The transport stream packets written so far.
    pub closed spec fn spec_packet_count(&self) -> u64 {
        self.packet_count
    }

    /// The counters stay below 16, the track flags match the tracks, and every packet
    /// counted took 188 bytes of what was written.
    pub closed spec fn wf(&self) -> bool {
        &&& self.pat_cc < 16 && self.pmt_cc < 16 && self.video_cc < 16 && self.audio_cc < 16
        &&& self.has_video == self.video is Some
        &&& self.has_audio == self.audio is Some
        &&& self.packet_count * 188 <= self.writer.position()
        &&& self.writer.position() <= self.writer.contents().len()
    }

    /// Writes one transport stream packet.
    #[verifier::rlimit(60)]
    fn write_ts_packet(&mut self, pid: u16, cc: u8, payload_unit_start: bool, adaptation: Option<&[u8]>, payload: &[u8]) -> (r:
        Result<(), Error>)
        requires
            old(self).wf(),
            adaptation matches Some(a) ==> a@.len() <= 183,
        ensures
            ({
                let adapt = match adaptation {
                    Some(a) => Some(a@),
                    None => None,
                };
                let bytes = ts_packet(pid, cc, payload_unit_start, adapt, payload@);
                let p = old(self).spec_writer().position();
                &&& p + 188 <= usize::MAX ==> r is Ok && final(self).wf()
                    && final(self).spec_writer().contents() == splice(old(self).spec_writer().contents(), p as int, bytes)
                    && final(self).spec_writer().position() == p + 188
                    && final(self).spec_packet_count() == old(self).spec_packet_count() + 1
                &&& p + 188 > usize::MAX ==> r == Err::<(), Error>(Error::Overflow) && *final(self) == *old(self)
                &&& final(self).spec_streams() == old(self).spec_streams()
                &&& final(self).spec_tracks() == old(self).spec_tracks()
                &&& final(self).spec_ccs() == old(self).spec_ccs()
            }),
    {
        let ghost adapt_s = match adaptation {
            Some(a) => Some(a@),
            None => None::<Seq<u8>>,
        };
        let mut pkt: Vec<u8> = Vec::new();
        pkt.push(SYNC_BYTE);
        let pusi_bit: u8 = if payload_unit_start { 0x40 } else { 0x00 };
        pkt.push(pusi_bit | (((pid >> 8u16) as u8) & 0x1Fu8));
        pkt.push(pid as u8);
        let adapt_field: u8 = if adaptation.is_some() { 0x20 } else { 0x00 };
        let payload_field: u8 = if payload.len() > 0 { 0x10 } else { 0x00 };
        pkt.push(adapt_field | payload_field | (cc & 0x0F));
        let ghost header = pkt@;
        let mut pos: usize = 4;
        if let Some(adapt) = adaptation {
            pkt.push(adapt.len() as u8);
            push_all(&mut pkt, adapt);
            pos = 5 + adapt.len();
        }
        let ghost with_body = pkt@;
        let payload_space = TS_PACKET_SIZE - pos;
        let copy_len = if payload.len() <= payload_space { payload.len() } else { payload_space };
        push_all(&mut pkt, vstd::slice::slice_subrange(payload, 0, copy_len));
        push_fill(&mut pkt, 0xFF, payload_space - copy_len);
        proof {
            let body = match adapt_s {
                Some(a) => seq![a.len() as u8] + a,
                None => Seq::<u8>::empty(),
            };
            assert(with_body =~= header + body);
            assert(payload@.subrange(0, copy_len as int) =~= payload@.take(copy_len as int));
            assert(pkt@ =~= ts_packet(pid, cc, payload_unit_start, adapt_s, payload@));
            lemma_ts_packet_len(pid, cc, payload_unit_start, adapt_s, payload@);
        }
        self.writer.write_all(pkt.as_slice())?;
        self.packet_count = self.packet_count + 1;
        proof {
            self.writer.lemma_position();
        }
        Ok(())
    }

    /// Writes the program association table and counts its continuity counter up.
    fn write_pat(&mut self) -> (r: Result<(), Error>)
        requires
            old(self).wf(),
        ensures
            ({
                let bytes = ts_packet(PAT_PID, old(self).spec_ccs().0, true, None, psi_payload(pat_section()));
                let p = old(self).spec_writer().position();
                &&& p + 188 <= usize::MAX ==> r is Ok && final(self).wf()
                    && final(self).spec_writer().contents() == splice(old(self).spec_writer().contents(), p as int, bytes)
                    && final(self).spec_writer().position() == p + 188
                    && final(self).spec_packet_count() == old(self).spec_packet_count() + 1
                    && final(self).spec_ccs() == ((old(self).spec_ccs().0 + 1) as u8 & 0x0F, old(self).spec_ccs().1,
                    old(self).spec_ccs().2, old(self).spec_ccs().3)
                &&& p + 188 > usize::MAX ==> r == Err::<(), Error>(Error::Overflow) && *final(self) == *old(self)
                &&& final(self).spec_streams() == old(self).spec_streams()
                &&& final(self).spec_tracks() == old(self).spec_tracks()
            }),
    {
        let section = pat_section_bytes();
        let payload = psi_payload_bytes(&section);
        self.write_ts_packet(PAT_PID, self.pat_cc, true, None, payload.as_slice())?;
        self.pat_cc = (self.pat_cc + 1) & 0x0F;
        proof {
            lemma_low_nibble((old(self).pat_cc + 1) as u8);
        }
        Ok(())
    }

    /// Writes the program map table and counts its continuity counter up.
    fn write_pmt(&mut self) -> (r: Result<(), Error>)
        requires
            old(self).wf(),
        ensures
            ({
                let bytes = ts_packet(
                    PMT_PID,
                    old(self).spec_ccs().1,
                    true,
                    None,
                    psi_payload(pmt_section(old(self).spec_tracks().0, old(self).spec_tracks().1)),
                );
                let p = old(self).spec_writer().position();
                &&& p + 188 <= usize::MAX ==> r is Ok && final(self).wf()
                    && final(self).spec_writer().contents() == splice(old(self).spec_writer().contents(), p as int, bytes)
                    && final(self).spec_writer().position() == p + 188
                    && final(self).spec_packet_count() == old(self).spec_packet_count() + 1
                    && final(self).spec_ccs() == (old(self).spec_ccs().0, (old(self).spec_ccs().1 + 1) as u8 & 0x0F,
                    old(self).spec_ccs().2, old(self).spec_ccs().3)
                &&& p + 188 > usize::MAX ==> r == Err::<(), Error>(Error::Overflow) && *final(self) == *old(self)
                &&& final(self).spec_streams() == old(self).spec_streams()
                &&& final(self).spec_tracks() == old(self).spec_tracks()
            }),
    {
        let section = pmt_section_bytes(&self.video, &self.audio);
        let payload = psi_payload_bytes(&section);
        self.write_ts_packet(PMT_PID, self.pmt_cc, true, None, payload.as_slice())?;
        self.pmt_cc = (self.pmt_cc + 1) & 0x0F;
        proof {
            lemma_low_nibble((old(self).pmt_cc + 1) as u8);
        }
        Ok(())
    }

    /// Cuts a PES packet of `data` into transport stream packets on `pid`, counting `cc` up
    /// once per packet.
    #[verifier::rlimit(40)]
    fn write_pes(&mut self, pid: u16, cc: &mut u8, stream_id_byte: u8, pts_90k: u64, data: &[u8]) -> (r: Result<
        (),
        Error,
    >)
        requires
            old(self).wf(),
            *old(cc) < 16,
            data@.len() + 8 <= usize::MAX,
        ensures
            ({
                let pes = pes_bytes(stream_id_byte, pts_90k, data@);
                let bytes = ts_split(pid, *old(cc), true, pes);
                let p = old(self).spec_writer().position();
                &&& p + bytes.len() <= usize::MAX ==> r is Ok && final(self).wf() && *final(cc) == ts_cc(
                    *old(cc),
                    pes.len() as int,
                ) && final(self).spec_writer().contents() == splice(old(self).spec_writer().contents(), p as int, bytes)
                    && final(self).spec_writer().position() == p + bytes.len()
                    && final(self).spec_packet_count() == old(self).spec_packet_count() + ts_count(pes.len() as int)
                    && final(self).spec_ccs() == old(self).spec_ccs()
                &&& p + bytes.len() > usize::MAX ==> r == Err::<(), Error>(Error::Overflow)
                &&& final(self).spec_streams() == old(self).spec_streams()
                &&& final(self).spec_tracks() == old(self).spec_tracks()
            }),
    {
        let pes = pes_packet_bytes(stream_id_byte, pts_90k, data);
        let ghost all = pes@;
        let ghost c0 = self.writer.contents();
        let ghost p0 = self.writer.position() as int;
        let ghost cc0 = *cc;
        let ghost n0 = self.packet_count as int;
        proof {
            lemma_ts_split_len(pid, cc0, true, all);
            self.writer.lemma_position();
        }
        let mut offset: usize = 0;
        let mut first = true;
        let ghost mut done: Seq<u8> = Seq::empty();
        assert(all.skip(0) =~= all);
        assert(done + ts_split(pid, cc0, true, all) =~= ts_split(pid, cc0, true, all));
        while offset < pes.len()
            invariant
                offset <= pes@.len(),
                pes@ == all,
                *cc < 16,
                first == (offset == 0),
                self.wf(),
                0 <= p0 <= c0.len(),
                done + ts_split(pid, *cc, first, all.skip(offset as int)) == ts_split(pid, cc0, true, all),
                ts_cc(*cc, all.len() - offset) == ts_cc(cc0, all.len() as int),
                ts_count(all.len() - offset) + (self.packet_count - n0) == ts_count(all.len() as int),
                self.writer.contents() == splice(c0, p0, done),
                self.writer.position() == p0 + done.len(),
                done.len() + 188 * ts_count(all.len() - offset) == 188 * ts_count(all.len() as int),
                ts_split(pid, cc0, true, all).len() == 188 * ts_count(all.len() as int),
                all == pes_bytes(stream_id_byte, pts_90k, data@),
                cc0 == *old(cc),
                self.streams == old(self).streams,
                self.video == old(self).video,
                self.audio == old(self).audio,
                self.pat_cc == old(self).pat_cc && self.pmt_cc == old(self).pmt_cc,
                self.video_cc == old(self).video_cc && self.audio_cc == old(self).audio_cc,
                p0 == old(self).spec_writer().position(),
                c0 == old(self).spec_writer().contents(),
            decreases pes@.len() - offset,
        {
            let remaining = pes.len() - offset;
            let ghost rest = all.skip(offset as int);
            let ghost cck = *cc;
            let ghost next = (cck + 1) as u8 & 0x0F;
            proof {
                lemma_ts_split_len(pid, cck, first, rest);
                lemma_ts_split_len(pid, next, false, rest.skip(184));
                assert(ts_count(remaining as int) >= 1);
            }
            if remaining >= 184 {
                let chunk = vstd::slice::slice_subrange(pes.as_slice(), offset, offset + 184);
                assert(chunk@ =~= rest.take(184));
                self.write_ts_packet(pid, *cc, first, None, chunk)?;
                proof {
                    let pkt = ts_packet(pid, cck, first, None, rest.take(184));
                    lemma_splice_concat(c0, p0, done, pkt);
                    assert((done + pkt) + ts_split(pid, next, false, rest.skip(184)) =~= done + ts_split(
                        pid,
                        cck,
                        first,
                        rest,
                    ));
                    done = done + pkt;
                }
                offset = offset + 184;
                assert(all.skip(offset as int) =~= rest.skip(184));
            } else {
                let adapt_data_len = 183 - remaining;
                let tail = vstd::slice::slice_subrange(pes.as_slice(), offset, pes.len());
                assert(tail@ =~= rest);
                if adapt_data_len == 0 {
                    let empty: Vec<u8> = Vec::new();
                    assert(empty@ =~= stuffing(remaining as int));
                    self.write_ts_packet(pid, *cc, first, Some(empty.as_slice()), tail)?;
                } else {
                    let mut adapt: Vec<u8> = Vec::new();
                    adapt.push(0x00);
                    push_fill(&mut adapt, 0xFF, adapt_data_len - 1);
                    assert(adapt@ =~= stuffing(remaining as int));
                    self.write_ts_packet(pid, *cc, first, Some(adapt.as_slice()), tail)?;
                }
                proof {
                    let pkt = ts_packet(pid, cck, first, Some(stuffing(rest.len() as int)), rest);
                    lemma_splice_concat(c0, p0, done, pkt);
                    assert((done + pkt) + ts_split(pid, next, false, Seq::<u8>::empty()) =~= done + ts_split(
                        pid,
                        cck,
                        first,
                        rest,
                    ));
                    done = done + pkt;
                }
                offset = pes.len();
                assert(all.skip(offset as int) =~= Seq::<u8>::empty());
            }
            *cc = (*cc + 1) & 0x0F;
            first = false;
            proof {
                lemma_low_nibble((cck + 1) as u8);
            }
        }
        assert(all.skip(offset as int) =~= Seq::<u8>::empty());
        assert(done + Seq::<u8>::empty() =~= done);
        assert(ts_count(0) == 0);
        assert(ts_cc(*cc, 0) == *cc);
        assert(done == ts_split(pid, cc0, true, all));
        proof {
            self.writer.lemma_position();
        }
        Ok(())
    }

    /// Starts a transport stream at the writer's position with a PAT and a PMT. The streams
    /// are a video stream on PID 0x100 (codec `h264`) if there is a video track and an audio
    /// stream on PID 0x101 (codec `aac`) if there is an audio track, both on the 90 kHz clock.
    #[verifier::rlimit(40)]
    pub fn new(writer: ByteWriter, video: Option<TsVideoTrack>, audio: Option<TsAudioTrack>) -> (r: Result<
        Self,
        Error,
    >)
        ensures
            ({
                let p = writer.position();
                let bytes = ts_packet(PAT_PID, 0, true, None, psi_payload(pat_section())) + ts_packet(
                    PMT_PID,
                    0,
                    true,
                    None,
                    psi_payload(pmt_section(video, audio)),
                );
                &&& p + 376 <= usize::MAX ==> (r matches Ok(m) && {
                    &&& m.wf()
                    &&& m.spec_writer().contents() == splice(writer.contents(), p as int, bytes)
                    &&& m.spec_writer().position() == p + 376
                    &&& m.spec_tracks() == (video, audio)
                    &&& m.spec_ccs() == (1u8, 1u8, 0u8, 0u8)
                    &&& m.spec_packet_count() == 2
                    &&& m.spec_streams().items@.len() == (if video is Some { 1int } else { 0 }) + (if audio is Some {
                        1int
                    } else {
                        0
                    })
                    &&& video is Some ==> {
                        let s = m.spec_streams().items@[0];
                        &&& s.id == VIDEO_PID && s.index == 0 && s.kind == StreamKind::Video
                        &&& s.codec@ == "h264"@ && s.time == Time { num: 1, den: 90000 }
                    }
                    &&& audio is Some ==> {
                        let s = m.spec_streams().items@.last();
                        &&& s.id == AUDIO_PID && s.index == (if video is Some { 1usize } else { 0 })
                        &&& s.kind == StreamKind::Audio
                        &&& s.codec@ == "aac"@ && s.time == Time { num: 1, den: 90000 }
                    }
                })
                &&& p + 376 > usize::MAX ==> r == Err::<Self, Error>(Error::Overflow)
            }),
    {
        let mut streams = Streams::new_empty();
        let mut track_idx: usize = 0;
        let has_video = video.is_some();
        let has_audio = audio.is_some();
        if has_video {
            let stream = Stream::new(
                VIDEO_PID as u32,
                track_idx,
                StreamKind::Video,
                String::from_str("h264"),
                Time::new(1, 90000),
            );
            streams.add(stream);
            track_idx = track_idx + 1;
        }
        if has_audio {
            let stream = Stream::new(
                AUDIO_PID as u32,
                track_idx,
                StreamKind::Audio,
                String::from_str("aac"),
                Time::new(1, 90000),
            );
            streams.add(stream);
        }
        proof {
            writer.lemma_position();
        }
        let ghost c0 = writer.contents();
        let ghost p0 = writer.position() as int;
        let mut muxer = TsMuxer {
            writer,
            streams,
            video,
            audio,
            pat_cc: 0,
            pmt_cc: 0,
            video_cc: 0,
            audio_cc: 0,
            has_video,
            has_audio,
            packet_count: 0,
        };
        muxer.write_pat()?;
        muxer.write_pmt()?;
        proof {
            lemma_ts_packet_len(PAT_PID, 0, true, None, psi_payload(pat_section()));
            lemma_splice_concat(c0, p0, ts_packet(PAT_PID, 0, true, None, psi_payload(pat_section())), ts_packet(
                PMT_PID,
                0,
                true,
                None,
                psi_payload(pmt_section(video, audio)),
            ));
            lemma_low_nibble(1);
        }
        Ok(muxer)
    }

    /// The sink, with everything written so far.
    pub fn writer(&self) -> (w: &ByteWriter)
        ensures
            *w == self.spec_writer(),
    {
        &self.writer
    }

    /// The streams.
    pub fn streams(&self) -> (s: &Streams)
        ensures
            *s == self.spec_streams(),
    {
        &self.streams
    }

    /// Writes a packet at `pts_90k` on the 90 kHz clock: video on PID 0x100 (stream id 0xE0),
    /// preceded by a PAT and a PMT where it is a keyframe; anything else on PID 0x101 (stream
    /// id 0xC0).
    #[verifier::rlimit(60)]
    pub fn write(&mut self, packet: Packet, pts_90k: u64) -> (r: Result<(), Error>)
        requires
            old(self).wf(),
            packet.data@.len() + 8 <= usize::MAX,
        ensures
            ({
                let v = ts_is_video(old(self).spec_streams().items@, packet.stream_id);
                let (pat_cc, pmt_cc, vcc, acc) = old(self).spec_ccs();
                let (video, audio) = old(self).spec_tracks();
                let tables = v && packet.keyframe;
                let pre = if tables {
                    ts_packet(PAT_PID, pat_cc, true, None, psi_payload(pat_section())) + ts_packet(
                        PMT_PID,
                        pmt_cc,
                        true,
                        None,
                        psi_payload(pmt_section(video, audio)),
                    )
                } else {
                    Seq::empty()
                };
                let pes = pes_bytes(if v { 0xE0u8 } else { 0xC0u8 }, pts_90k, packet.data@);
                let body = ts_split(if v { VIDEO_PID } else { AUDIO_PID }, if v { vcc } else { acc }, true, pes);
                let p = old(self).spec_writer().position();
                &&& p + pre.len() + body.len() <= usize::MAX ==> r is Ok && final(self).wf()
                    && final(self).spec_writer().contents() == splice(
                    old(self).spec_writer().contents(),
                    p as int,
                    pre + body,
                ) && final(self).spec_writer().position() == p + pre.len() + body.len() && final(self).spec_ccs() == (
                    if tables { (pat_cc + 1) as u8 & 0x0F } else { pat_cc },
                    if tables { (pmt_cc + 1) as u8 & 0x0F } else { pmt_cc },
                    if v { ts_cc(vcc, pes.len() as int) } else { vcc },
                    if v { acc } else { ts_cc(acc, pes.len() as int) },
                )
                &&& p + pre.len() + body.len() > usize::MAX ==> r == Err::<(), Error>(Error::Overflow)
                &&& final(self).spec_streams() == old(self).spec_streams()
                &&& final(self).spec_tracks() == old(self).spec_tracks()
            }),
    {
        let ghost c0 = self.writer.contents();
        let ghost p0 = self.writer.position() as int;
        let ghost old_ccs = self.spec_ccs();
        proof {
            self.writer.lemma_position();
        }
        let is_video = match self.streams.get(packet.stream_id) {
            Some(s) => s.video_kind(),
            None => false,
        };
        let ghost pre = if is_video && packet.keyframe {
            ts_packet(PAT_PID, old_ccs.0, true, None, psi_payload(pat_section())) + ts_packet(
                PMT_PID,
                old_ccs.1,
                true,
                None,
                psi_payload(pmt_section(self.video, self.audio)),
            )
        } else {
            Seq::<u8>::empty()
        };
        if is_video {
            if packet.keyframe {
                self.write_pat()?;
                self.write_pmt()?;
                proof {
                    lemma_ts_packet_len(PAT_PID, old_ccs.0, true, None, psi_payload(pat_section()));
                    lemma_ts_packet_len(PMT_PID, old_ccs.1, true, None, psi_payload(pmt_section(self.video, self.audio)));
                    lemma_splice_concat(c0, p0, ts_packet(PAT_PID, old_ccs.0, true, None, psi_payload(pat_section())), ts_packet(
                        PMT_PID,
                        old_ccs.1,
                        true,
                        None,
                        psi_payload(pmt_section(self.video, self.audio)),
                    ));
                }
            }
            assert(self.writer.contents() == splice(c0, p0, pre));
            let mut cc = self.video_cc;
            self.write_pes(VIDEO_PID, &mut cc, 0xE0, pts_90k, packet.data.as_slice())?;
            self.video_cc = cc;
        } else {
            assert(self.writer.contents() =~= splice(c0, p0, pre));
            let mut cc = self.audio_cc;
            self.write_pes(AUDIO_PID, &mut cc, 0xC0, pts_90k, packet.data.as_slice())?;
            self.audio_cc = cc;
        }
        proof {
            let body = ts_split(
                if is_video { VIDEO_PID } else { AUDIO_PID },
                if is_video { old_ccs.2 } else { old_ccs.3 },
                true,
                pes_bytes(if is_video { 0xE0u8 } else { 0xC0u8 }, pts_90k, packet.data@),
            );
            lemma_splice_concat(c0, p0, pre, body);
            lemma_ts_split_len(
                if is_video { VIDEO_PID } else { AUDIO_PID },
                if is_video { old_ccs.2 } else { old_ccs.3 },
                true,
                pes_bytes(if is_video { 0xE0u8 } else { 0xC0u8 }, pts_90k, packet.data@),
            );
            lemma_ts_cc_bound(
                if is_video { old_ccs.2 } else { old_ccs.3 },
                pes_bytes(if is_video { 0xE0u8 } else { 0xC0u8 }, pts_90k, packet.data@).len() as int,
            );
        }
        Ok(())
    }

    /// Nothing is left to write: every packet went out whole.
    pub fn finalize(&mut self) -> (r: Result<(), Error>)
        ensures
            r is Ok,
            *final(self) == *old(self),
    {
        Ok(())
    }
}

} // verus!
