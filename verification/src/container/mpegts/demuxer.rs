use super::muxer::{pts_bytes, PAT_PID, SYNC_BYTE, TS_PACKET_SIZE};
use crate::error::Error;
use crate::io::ByteReader;
use crate::media::{Packet, Stream, StreamKind, Streams, Time};
use vstd::prelude::*;

verus! {

/// The 33-bit time stamp in the five bytes of a PTS field, marker bits dropped.
pub open spec fn pts_value(b: Seq<u8>) -> u64 {
    ((((b[0] as u64) >> 1u64) & 0x07u64) << 30u64) | ((b[1] as u64) << 22u64) | (((b[2] as u64) >> 1u64) << 15u64)
        | ((b[3] as u64) << 7u64) | ((b[4] as u64) >> 1u64)
}

/// Reads a five-byte PTS field into a 33-bit time stamp.
pub fn parse_pts(data: &[u8]) -> (pts: u64)
    requires
        data@.len() >= 5,
    ensures
        pts == pts_value(data@),
{
    let b0 = data[0] as u64;
    let b1 = data[1] as u64;
    let b2 = data[2] as u64;
    let b3 = data[3] as u64;
    let b4 = data[4] as u64;
    ((b0 >> 1u64) & 0x07u64) << 30u64 | (b1 << 22u64) | ((b2 >> 1u64) << 15u64) | (b3 << 7u64) | (b4 >> 1u64)
}

/// A time stamp the muxer writes into a PES header is the one the demuxer reads back, for
/// every time stamp that fits the 33 bits of the field.
pub proof fn law_pts_roundtrip(pts: u64)
    requires
        pts < 0x2_0000_0000u64,
    ensures
        pts_value(pts_bytes(pts)) == pts,
{
    let b0: u8 = 0x21u8 | (((pts >> 29u64) & 0x0Eu64) as u8);
    let b1: u8 = ((pts >> 22u64) & 0xFFu64) as u8;
    let b2: u8 = (((pts >> 14u64) & 0xFEu64) | 0x01u64) as u8;
    let b3: u8 = ((pts >> 7u64) & 0xFFu64) as u8;
    let b4: u8 = (((pts << 1u64) & 0xFEu64) | 0x01u64) as u8;
    assert(pts_bytes(pts) == seq![b0, b1, b2, b3, b4]);
    assert(((((b0 as u64) >> 1u64) & 0x07u64) << 30u64) | ((b1 as u64) << 22u64) | (((b2 as u64) >> 1u64) << 15u64)
        | ((b3 as u64) << 7u64) | ((b4 as u64) >> 1u64) == pts) by (bit_vector)
        requires
            pts < 0x2_0000_0000u64,
            b0 == 0x21u8 | (((pts >> 29u64) & 0x0Eu64) as u8),
            b1 == ((pts >> 22u64) & 0xFFu64) as u8,
            b2 == (((pts >> 14u64) & 0xFEu64) | 0x01u64) as u8,
            b3 == ((pts >> 7u64) & 0xFFu64) as u8,
            b4 == (((pts << 1u64) & 0xFEu64) | 0x01u64) as u8,
    ;
}

/// A PES buffer: PID, bytes gathered, time stamp, stream id.
pub type PesModel = (u16, Seq<u8>, Option<u64>, u32);

/// A packet handed out: data, stream id, time stamp.
pub type OutModel = (Seq<u8>, u32, i64);

/// What the demuxer knows: the PMT PID, the streams found (PID, stream id, kind), the PES
/// buffers, the packets waiting to be handed out (the last one goes first), and whether a PMT
/// was read.
pub type TsModel = (Option<u16>, Seq<(u16, u32, StreamKind)>, Seq<PesModel>, Seq<OutModel>, bool);

/// The demuxer before any packet.
pub open spec fn ts_init() -> TsModel {
    (None, Seq::empty(), Seq::empty(), Seq::empty(), false)
}

/// The part of a table payload after its pointer field, where the unit starts there; `None`
/// where the pointer points past the payload.
pub open spec fn psi_data(payload: Seq<u8>, pusi: bool) -> Option<Seq<u8>> {
    if pusi && payload.len() > 0 {
        let ptr = payload[0] as int;
        if 1 + ptr < payload.len() {
            Some(payload.skip(1 + ptr))
        } else {
            None
        }
    } else {
        Some(payload)
    }
}

/// Where a table section ends inside `data`.
pub open spec fn section_end(data: Seq<u8>) -> int {
    let sl = (((data[1] as usize) & 0x0F) << 8usize) | (data[2] as usize);
    if 3 + sl < data.len() { 3 + sl } else { data.len() as int }
}

/// The PMT PID after reading PAT entries from `i` on: the last program other than 0 wins.
pub open spec fn pat_entries(data: Seq<u8>, i: int, end: int, pmt: Option<u16>) -> Option<u16>
    decreases end - i,
{
    if i < 0 || i + 4 > end - 4 {
        pmt
    } else {
        let program = ((data[i] as u16) << 8u16) | (data[i + 1] as u16);
        let pid = (((data[i + 2] as u16) & 0x1F) << 8u16) | (data[i + 3] as u16);
        pat_entries(data, i + 4, end, if program != 0 { Some(pid) } else { pmt })
    }
}

/// Reading a PAT payload: the new PMT PID. `None` where the section is shorter than its
/// CRC, which the entry loop cannot take.
pub open spec fn pat_step(pmt: Option<u16>, payload: Seq<u8>, pusi: bool) -> Option<Option<u16>> {
    match psi_data(payload, pusi) {
        None => Some(pmt),
        Some(data) => if data.len() < 8 || data[0] != 0 {
            Some(pmt)
        } else if section_end(data) < 4 {
            None
        } else {
            Some(pat_entries(data, 8, section_end(data), pmt))
        },
    }
}

/// The kind a PMT stream type stands for, if the demuxer takes it.
pub open spec fn pmt_kind(st: u8) -> Option<StreamKind> {
    if st == 0x01 || st == 0x02 || st == 0x1B || st == 0x24 || st == 0x10 {
        Some(StreamKind::Video)
    } else if st == 0x03 || st == 0x04 || st == 0x0F || st == 0x11 || st == 0x06 {
        Some(StreamKind::Audio)
    } else {
        None
    }
}

/// Whether a PID is among the streams found.
pub open spec fn has_pid(map: Seq<(u16, u32, StreamKind)>, pid: u16) -> bool {
    exists|k: int| 0 <= k < map.len() && #[trigger] map[k].0 == pid
}

/// The streams after reading PMT entries from `i` on; `idx` counts the streams added by this
/// table.
pub open spec fn pmt_entries(data: Seq<u8>, i: int, end: int, map: Seq<(u16, u32, StreamKind)>, idx: u32) -> Seq<
    (u16, u32, StreamKind),
>
    decreases (if end - i > 0 { end - i } else { 0 }),
{
    if i < 0 || i + 5 > end - 4 {
        map
    } else {
        let st = data[i];
        let pid = (((data[i + 1] as u16) & 0x1F) << 8u16) | (data[i + 2] as u16);
        let info = (((data[i + 3] as usize) & 0x0F) << 8usize) | (data[i + 4] as usize);
        let next = i + 5 + info;
        let add = pmt_kind(st) is Some && !has_pid(map, pid);
        let map2 = if add { map.push((pid, idx, pmt_kind(st)->0)) } else { map };
        let idx2 = if add { (idx + 1) as u32 } else { idx };
        pmt_entries(data, next, end, map2, idx2)
    }
}

/// Reading a PMT payload: the streams and whether a PMT was read. `None` where the section
/// is shorter than its CRC.
pub open spec fn pmt_step(map: Seq<(u16, u32, StreamKind)>, parsed: bool, payload: Seq<u8>, pusi: bool) -> Option<
    (Seq<(u16, u32, StreamKind)>, bool),
> {
    match psi_data(payload, pusi) {
        None => Some((map, parsed)),
        Some(data) => if data.len() < 12 || data[0] != 2 {
            Some((map, parsed))
        } else if section_end(data) < 4 {
            None
        } else {
            let pil = (((data[10] as usize) & 0x0F) << 8usize) | (data[11] as usize);
            Some((pmt_entries(data, 12 + pil, section_end(data), map, 0), true))
        },
    }
}

/// The position of the first PES buffer of `pid`.
pub open spec fn find_pes(states: Seq<PesModel>, pid: u16) -> Option<int>
    decreases states.len(),
{
    if states.len() == 0 {
        None
    } else if states[0].0 == pid {
        Some(0)
    } else {
        match find_pes(states.skip(1), pid) {
            Some(i) => Some(i + 1),
            None => None,
        }
    }
}

/// The stream id of the first stream with `pid`, or 0.
pub open spec fn stream_id_of(map: Seq<(u16, u32, StreamKind)>, pid: u16) -> u32
    decreases map.len(),
{
    if map.len() == 0 {
        0
    } else if map[0].0 == pid {
        map[0].1
    } else {
        stream_id_of(map.skip(1), pid)
    }
}

/// The PES buffers with one for `pid` added at the end where there is none.
pub open spec fn ensure_pes(states: Seq<PesModel>, map: Seq<(u16, u32, StreamKind)>, pid: u16) -> Seq<PesModel> {
    if find_pes(states, pid) is Some {
        states
    } else {
        states.push((pid, Seq::empty(), None, stream_id_of(map, pid)))
    }
}

/// Hands out what the buffer at `i` gathered, if anything: the buffer is emptied and a packet
/// queued with its stream id and time stamp (0 where there is none).
pub open spec fn flush_at(states: Seq<PesModel>, queue: Seq<OutModel>, i: int) -> (Seq<PesModel>, Seq<OutModel>) {
    let st = states[i];
    if st.1.len() == 0 {
        (states, queue)
    } else {
        (
            states.update(i, (st.0, Seq::empty(), st.2, st.3)),
            queue.push((st.1, st.3, (match st.2 { Some(p) => p, None => 0 }) as i64)),
        )
    }
}

/// Reading PES data of `pid`: a unit start hands out what was gathered and, where a PES
/// header follows, takes its time stamp and the data after it; other payloads are gathered.
pub open spec fn pes_step(states: Seq<PesModel>, queue: Seq<OutModel>, map: Seq<(u16, u32, StreamKind)>, pid: u16, payload: Seq<u8>, pusi: bool) -> (
    Seq<PesModel>,
    Seq<OutModel>,
) {
    let s1 = ensure_pes(states, map, pid);
    let i = find_pes(s1, pid)->0;
    if pusi {
        let (s2, q2) = flush_at(s1, queue, i);
        if payload.len() >= 9 && payload[0] == 0 && payload[1] == 0 && payload[2] == 1 {
            let flags = (payload[7] >> 6u8) & 0x03u8;
            let header_end = 9 + payload[8] as int;
            let pts = if flags >= 2 && payload.len() >= 14 { Some(pts_value(payload.skip(9))) } else { None };
            let data = if header_end < payload.len() { payload.skip(header_end) } else { Seq::empty() };
            (s2.update(i, (s2[i].0, data, pts, s2[i].3)), q2)
        } else {
            (s2, q2)
        }
    } else {
        (s1.update(i, (s1[i].0, s1[i].1 + payload, s1[i].2, s1[i].3)), queue)
    }
}

/// Reading one 188-byte packet. `None` where a table in it would make the demuxer fail.
#[verifier::opaque]
pub open spec fn ts_step(m: TsModel, pkt: Seq<u8>) -> Option<TsModel> {
    if pkt[0] != SYNC_BYTE {
        Some(m)
    } else {
        let pusi = pkt[1] & 0x40u8 != 0;
        let pid = (((pkt[1] as u16) & 0x1F) << 8u16) | (pkt[2] as u16);
        let afc = (pkt[3] >> 4u8) & 0x03u8;
        let pos = if afc & 0x02u8 != 0 { 5 + pkt[4] as int } else { 4int };
        if afc & 0x01u8 == 0 || pos >= 188 {
            Some(m)
        } else {
            let payload = pkt.skip(pos);
            if pid == PAT_PID {
                match pat_step(m.0, payload, pusi) {
                    None => None,
                    Some(p) => Some((p, m.1, m.2, m.3, m.4)),
                }
            } else if m.0 == Some(pid) {
                match pmt_step(m.1, m.4, payload, pusi) {
                    None => None,
                    Some((map, parsed)) => Some((m.0, map, m.2, m.3, parsed)),
                }
            } else if has_pid(m.1, pid) {
                let (states, queue) = pes_step(m.2, m.3, m.1, pid, payload, pusi);
                Some((m.0, m.1, states, queue, m.4))
            } else {
                Some(m)
            }
        }
    }
}

/// Reading the first packets, up to 100 of them, until a PMT was read: what the demuxer knows
/// and the bytes left.
pub open spec fn ts_open(m: TsModel, s: Seq<u8>, n: nat) -> Option<(TsModel, Seq<u8>)>
    decreases n,
{
    if n == 0 || m.4 {
        Some((m, s))
    } else if s.len() < 188 {
        ts_open(m, s, (n - 1) as nat)
    } else {
        match ts_step(m, s.take(188)) {
            None => None,
            Some(m2) => ts_open(m2, s.skip(188), (n - 1) as nat),
        }
    }
}

/// Handing out every gathered buffer, in order.
pub open spec fn flush_all(states: Seq<PesModel>, queue: Seq<OutModel>, i: int) -> (Seq<PesModel>, Seq<OutModel>)
    decreases states.len() - i,
{
    if i < 0 || i >= states.len() {
        (states, queue)
    } else {
        let (s2, q2) = flush_at(states, queue, i);
        flush_all(s2, q2, i + 1)
    }
}

/// The next packet: the last one queued, or the next one the input completes; at the end of
/// the input every buffer is handed out first. With what the demuxer knows after and the bytes
/// left; `None` where a table would make the demuxer fail.
pub open spec fn ts_next(m: TsModel, s: Seq<u8>) -> Option<(Option<OutModel>, TsModel, Seq<u8>)>
    decreases s.len(),
{
    if m.3.len() > 0 {
        Some((Some(m.3.last()), (m.0, m.1, m.2, m.3.drop_last(), m.4), s))
    } else if s.len() < 188 {
        let (states, queue) = flush_all(m.2, m.3, 0);
        if queue.len() > 0 {
            Some((Some(queue.last()), (m.0, m.1, states, queue.drop_last(), m.4), s))
        } else {
            Some((None, (m.0, m.1, states, queue, m.4), s))
        }
    } else {
        match ts_step(m, s.take(188)) {
            None => None,
            Some(m2) => ts_next(m2, s.skip(188)),
        }
    }
}

pub proof fn lemma_find_pes(states: Seq<PesModel>, pid: u16)
    ensures
        find_pes(states, pid) matches Some(i) ==> 0 <= i < states.len() && states[i].0 == pid,
    decreases states.len(),
{
    if states.len() > 0 && states[0].0 != pid {
        lemma_find_pes(states.skip(1), pid);
    }
}

pub proof fn lemma_ensure_pes(states: Seq<PesModel>, map: Seq<(u16, u32, StreamKind)>, pid: u16)
    ensures
        find_pes(ensure_pes(states, map, pid), pid) is Some,
        find_pes(states, pid) is Some ==> ensure_pes(states, map, pid) == states,
    decreases states.len(),
{
    if find_pes(states, pid) is None {
        lemma_find_pes_push(states, (pid, Seq::empty(), None, stream_id_of(map, pid)));
    }
}

pub proof fn lemma_find_pes_push(states: Seq<PesModel>, e: PesModel)
    requires
        find_pes(states, e.0) is None,
    ensures
        find_pes(states.push(e), e.0) == Some(states.len() as int),
    decreases states.len(),
{
    if states.len() > 0 {
        assert(states.push(e).skip(1) =~= states.skip(1).push(e));
        lemma_find_pes_push(states.skip(1), e);
    }
}

/// Twelve bits of a table field: the low four bits of `hi`, then `lo`.
fn twelve_bits(hi: u8, lo: u8) -> (n: usize)
    ensures
        n == (((hi as usize) & 0x0F) << 8usize) | (lo as usize),
        n <= 0xFFF,
{
    let n = (((hi as usize) & 0x0F) << 8usize) | (lo as usize);
    assert((((hi as usize) & 0x0F) << 8usize) | (lo as usize) <= 0xFFF) by (bit_vector);
    n
}

/// A PES packet being gathered.
#[derive(Debug)]
pub struct PesState {
    pub buffer: Vec<u8>,
    pub pts: Option<u64>,
    pub stream_id: u32,
}

/// What a PES buffer holds.
pub open spec fn pes_model(e: (u16, PesState)) -> PesModel {
    (e.0, e.1.buffer@, e.1.pts, e.1.stream_id)
}

/// What a queued packet holds.
pub open spec fn out_model(p: Packet) -> OutModel {
    (p.data@, p.stream_id, p.pts)
}

/// The transport stream demuxer: finds the streams from the PAT and PMT, then gathers PES
/// packets and hands them out.
pub struct TsDemuxer {
    reader: ByteReader,
    streams: Streams,
    pmt_pid: Option<u16>,
    pid_map: Vec<(u16, u32, StreamKind)>,
    pes_state: Vec<(u16, PesState)>,
    output_queue: Vec<Packet>,
    pmt_parsed: bool,
    streams_built: bool,
}

/// The codec name the demuxer gives a stream kind.
pub open spec fn kind_codec(k: StreamKind) -> Seq<char> {
    match k {
        StreamKind::Video => "h264"@,
        StreamKind::Audio => "aac"@,
        StreamKind::Subtitle => "subtitle"@,
    }
}

fn kind_codec_string(k: StreamKind) -> (s: String)
    ensures
        s@ == kind_codec(k),
{
    match k {
        StreamKind::Video => String::from_str("h264"),
        StreamKind::Audio => String::from_str("aac"),
        StreamKind::Subtitle => String::from_str("subtitle"),
    }
}

impl TsDemuxer {
    /// What the demuxer knows.
    pub closed spec fn model(&self) -> TsModel {
        (
            self.pmt_pid,
            self.pid_map@,
            self.pes_state@.map_values(|e: (u16, PesState)| pes_model(e)),
            self.output_queue@.map_values(|p: Packet| out_model(p)),
            self.pmt_parsed,
        )
    }

    /// The bytes not read yet.
    pub closed spec fn source(&self) -> Seq<u8> {
        self.reader.rest()
    }

    /// The streams.
    pub closed spec fn spec_streams(&self) -> Streams {
        self.streams
    }

    /// Every queued packet is on the 90 kHz clock and no keyframe.
    pub closed spec fn wf(&self) -> bool {
        forall|k: int| 0 <= k < self.output_queue@.len() ==> #[trigger] self.output_queue@[k].time == (Time {
            num: 1,
            den: 90000,
        }) && !self.output_queue@[k].keyframe
    }

    fn parse_pat(&mut self, payload: &[u8], pusi: bool) -> (ok: bool)
        requires
            payload@.len() <= 188,
        ensures
            ok == pat_step(old(self).pmt_pid, payload@, pusi) is Some,
            ok ==> final(self).pmt_pid == pat_step(old(self).pmt_pid, payload@, pusi)->0,
            final(self).pid_map == old(self).pid_map,
            final(self).pes_state == old(self).pes_state,
            final(self).output_queue == old(self).output_queue,
            final(self).pmt_parsed == old(self).pmt_parsed,
            final(self).reader == old(self).reader,
            final(self).streams == old(self).streams,
            final(self).streams_built == old(self).streams_built,
    {
        let data = if pusi && payload.len() > 0 {
            let ptr = payload[0] as usize;
            if 1 + ptr < payload.len() {
                vstd::slice::slice_subrange(payload, 1 + ptr, payload.len())
            } else {
                return true;
            }
        } else {
            payload
        };
        assert(psi_data(payload@, pusi) == Some(data@));
        if data.len() < 8 {
            return true;
        }
        if data[0] != 0x00 {
            return true;
        }
        let section_length = twelve_bits(data[1], data[2]);
        let end = if 3 + section_length < data.len() { 3 + section_length } else { data.len() };
        if end < 4 {
            return false;
        }
        let mut i: usize = 8;
        let ghost goal = pat_entries(data@, 8, end as int, self.pmt_pid);
        while i + 4 <= end - 4
            invariant
                end == section_end(data@),
                end <= data@.len(),
                end >= 4,
                data@.len() <= 188,
                8 <= i <= 188,
                pat_entries(data@, i as int, end as int, self.pmt_pid) == goal,
                self.pid_map == old(self).pid_map,
                self.pes_state == old(self).pes_state,
                self.output_queue == old(self).output_queue,
                self.pmt_parsed == old(self).pmt_parsed,
                self.reader == old(self).reader,
                self.streams == old(self).streams,
                self.streams_built == old(self).streams_built,
            decreases end - i,
        {
            let program_num = ((data[i] as u16) << 8u16) | (data[i + 1] as u16);
            let pid = (((data[i + 2] as u16) & 0x1F) << 8u16) | (data[i + 3] as u16);
            if program_num != 0 {
                self.pmt_pid = Some(pid);
            }
            i = i + 4;
        }
        true
    }

    fn has_pid_exec(&self, pid: u16) -> (b: bool)
        ensures
            b == has_pid(self.pid_map@, pid),
    {
        let mut k: usize = 0;
        while k < self.pid_map.len()
            invariant
                k <= self.pid_map@.len(),
                forall|j: int| 0 <= j < k ==> self.pid_map@[j].0 != pid,
            decreases self.pid_map@.len() - k,
        {
            if self.pid_map[k].0 == pid {
                return true;
            }
            k = k + 1;
        }
        false
    }

    fn parse_pmt(&mut self, payload: &[u8], pusi: bool) -> (ok: bool)
        requires
            payload@.len() <= 188,
        ensures
            ok == pmt_step(old(self).pid_map@, old(self).pmt_parsed, payload@, pusi) is Some,
            ok ==> (final(self).pid_map@, final(self).pmt_parsed) == pmt_step(
                old(self).pid_map@,
                old(self).pmt_parsed,
                payload@,
                pusi,
            )->0,
            final(self).pmt_pid == old(self).pmt_pid,
            final(self).pes_state == old(self).pes_state,
            final(self).output_queue == old(self).output_queue,
            final(self).reader == old(self).reader,
            final(self).streams == old(self).streams,
            final(self).streams_built == old(self).streams_built,
    {
        let data = if pusi && payload.len() > 0 {
            let ptr = payload[0] as usize;
            if 1 + ptr < payload.len() {
                vstd::slice::slice_subrange(payload, 1 + ptr, payload.len())
            } else {
                return true;
            }
        } else {
            payload
        };
        assert(psi_data(payload@, pusi) == Some(data@));
        if data.len() < 12 || data[0] != 0x02 {
            return true;
        }
        let section_length = twelve_bits(data[1], data[2]);
        let end = if 3 + section_length < data.len() { 3 + section_length } else { data.len() };
        if end < 4 {
            return false;
        }
        let prog_info_len = twelve_bits(data[10], data[11]);
        let mut i: usize = 12 + prog_info_len;
        let mut stream_idx: u32 = 0;
        let ghost goal = pmt_entries(data@, i as int, end as int, self.pid_map@, 0);
        while i + 5 <= end - 4
            invariant
                end == section_end(data@),
                end <= data@.len(),
                end >= 4,
                pmt_entries(data@, i as int, end as int, self.pid_map@, stream_idx) == goal,
                stream_idx <= i,
                i <= 0x2000,
                data@.len() <= 188,
                self.pmt_pid == old(self).pmt_pid,
                self.pes_state == old(self).pes_state,
                self.output_queue == old(self).output_queue,
                self.pmt_parsed == old(self).pmt_parsed,
                self.reader == old(self).reader,
                self.streams == old(self).streams,
                self.streams_built == old(self).streams_built,
            decreases (if end > i { end - i } else { 0 }),
        {
            let stream_type = data[i];
            let es_pid = (((data[i + 1] as u16) & 0x1F) << 8u16) | (data[i + 2] as u16);
            let es_info_len = twelve_bits(data[i + 3], data[i + 4]);
            i = i + 5 + es_info_len;
            let kind = if stream_type == 0x01 || stream_type == 0x02 || stream_type == 0x1B || stream_type == 0x24
                || stream_type == 0x10 {
                StreamKind::Video
            } else if stream_type == 0x03 || stream_type == 0x04 || stream_type == 0x0F || stream_type == 0x11
                || stream_type == 0x06 {
                StreamKind::Audio
            } else {
                continue;
            };
            if !self.has_pid_exec(es_pid) {
                self.pid_map.push((es_pid, stream_idx, kind));
                stream_idx = stream_idx + 1;
            }
        }
        self.pmt_parsed = true;
        true
    }

    /// The position of the first PES buffer of `pid`.
    fn find_pes_index(&self, pid: u16) -> (r: Option<usize>)
        ensures
            r matches Some(i) ==> find_pes(self.model().2, pid) == Some(i as int) && i < self.pes_state@.len(),
            r is None ==> find_pes(self.model().2, pid) is None,
    {
        let ghost ms = self.model().2;
        let mut k: usize = 0;
        assert(ms.skip(0) =~= ms);
        while k < self.pes_state.len()
            invariant
                ms == self.model().2,
                k <= self.pes_state@.len(),
                find_pes(ms, pid) == (match find_pes(ms.skip(k as int), pid) {
                    Some(j) => Some(j + k),
                    None => None::<int>,
                }),
            decreases self.pes_state@.len() - k,
        {
            assert(ms[k as int] == pes_model(self.pes_state@[k as int]));
            if self.pes_state[k].0 == pid {
                return Some(k);
            }
            assert(ms.skip(k as int).skip(1) =~= ms.skip(k + 1));
            k = k + 1;
        }
        assert(ms.skip(k as int) =~= Seq::<PesModel>::empty());
        None
    }

    /// The stream id of the first stream with `pid`, or 0.
    fn stream_id_for(&self, pid: u16) -> (r: u32)
        ensures
            r == stream_id_of(self.pid_map@, pid),
    {
        let ghost m = self.pid_map@;
        let mut k: usize = 0;
        assert(m.skip(0) =~= m);
        while k < self.pid_map.len()
            invariant
                m == self.pid_map@,
                k <= m.len(),
                stream_id_of(m, pid) == stream_id_of(m.skip(k as int), pid),
            decreases m.len() - k,
        {
            if self.pid_map[k].0 == pid {
                return self.pid_map[k].1;
            }
            assert(m.skip(k as int).skip(1) =~= m.skip(k + 1));
            k = k + 1;
        }
        0
    }

    /// Adds an empty PES buffer for `pid` where there is none.
    fn ensure_pes_state(&mut self, pid: u16)
        requires
            old(self).wf(),
        ensures
            final(self).wf(),
            final(self).model() == (old(self).model().0, old(self).model().1, ensure_pes(
                old(self).model().2,
                old(self).model().1,
                pid,
            ), old(self).model().3, old(self).model().4),
            final(self).reader == old(self).reader,
            final(self).streams == old(self).streams,
            final(self).output_queue == old(self).output_queue,
            final(self).streams_built == old(self).streams_built,
    {
        if self.find_pes_index(pid).is_none() {
            let stream_id = self.stream_id_for(pid);
            self.pes_state.push((pid, PesState { buffer: Vec::new(), pts: None, stream_id }));
            assert(self.model().2 =~= old(self).model().2.push((pid, Seq::empty(), None, stream_id)));
        }
    }

    /// Hands out what the PES buffer at `i` gathered, if anything.
    fn flush_index(&mut self, i: usize)
        requires
            i < old(self).pes_state@.len(),
            old(self).wf(),
        ensures
            final(self).wf(),
            (final(self).model().2, final(self).model().3) == flush_at(old(self).model().2, old(self).model().3, i as int),
            final(self).model().0 == old(self).model().0,
            final(self).model().1 == old(self).model().1,
            final(self).model().4 == old(self).model().4,
            final(self).pes_state@.len() == old(self).pes_state@.len(),
            final(self).reader == old(self).reader,
            final(self).streams == old(self).streams,
            final(self).streams_built == old(self).streams_built,
    {
        let ghost ms = self.model().2;
        let ghost qs = self.model().3;
        let (p, mut st) = self.pes_state.remove(i);
        assert(pes_model((p, st)) == ms[i as int]);
        if st.buffer.len() > 0 {
            let mut data: Vec<u8> = Vec::new();
            std::mem::swap(&mut data, &mut st.buffer);
            let v: u64 = match st.pts {
                Some(x) => x,
                None => 0,
            };
            let packet = Packet::new(data, st.stream_id, Time::new(1, 90000)).with_pts(v as i64);
            self.output_queue.push(packet);
            assert(self.model().3 =~= qs.push((ms[i as int].1, ms[i as int].3, v as i64)));
        }
        self.pes_state.insert(i, (p, st));
        assert(self.model().2 =~= flush_at(ms, qs, i as int).0);
    }

    /// Hands out what the PES buffer of `pid` gathered, if anything.
    fn flush_pes(&mut self, pid: u16) -> (r: Result<(), Error>)
        requires
            old(self).wf(),
        ensures
            r is Ok,
            final(self).wf(),
            (final(self).model().2, final(self).model().3) == (match find_pes(old(self).model().2, pid) {
                Some(i) => flush_at(old(self).model().2, old(self).model().3, i),
                None => (old(self).model().2, old(self).model().3),
            }),
            final(self).model().0 == old(self).model().0,
            final(self).model().1 == old(self).model().1,
            final(self).model().4 == old(self).model().4,
            final(self).reader == old(self).reader,
            final(self).streams == old(self).streams,
            final(self).streams_built == old(self).streams_built,
    {
        let ghost m0 = self.model();
        match self.find_pes_index(pid) {
            Some(i) => {
                proof {
                    lemma_find_pes(self.model().2, pid);
                }
                self.flush_index(i);
                assert(find_pes(m0.2, pid) == Some(i as int));
                assert((self.model().2, self.model().3) == flush_at(m0.2, m0.3, i as int));
            },
            None => {
                assert(find_pes(m0.2, pid) is None);
            },
        }
        Ok(())
    }

    /// Hands out every gathered PES buffer, in order.
    fn flush_all_pes(&mut self) -> (r: Result<(), Error>)
        requires
            old(self).wf(),
        ensures
            r is Ok,
            final(self).wf(),
            (final(self).model().2, final(self).model().3) == flush_all(old(self).model().2, old(self).model().3, 0),
            final(self).model().0 == old(self).model().0,
            final(self).model().1 == old(self).model().1,
            final(self).model().4 == old(self).model().4,
            final(self).reader == old(self).reader,
            final(self).streams == old(self).streams,
            final(self).streams_built == old(self).streams_built,
    {
        let n = self.pes_state.len();
        let mut k: usize = 0;
        while k < n
            invariant
                self.wf(),
                n == self.pes_state@.len(),
                k <= n,
                flush_all(self.model().2, self.model().3, k as int) == flush_all(
                    old(self).model().2,
                    old(self).model().3,
                    0,
                ),
                self.model().0 == old(self).model().0,
                self.model().1 == old(self).model().1,
                self.model().4 == old(self).model().4,
                self.reader == old(self).reader,
                self.streams_built == old(self).streams_built,
                self.streams == old(self).streams,
            decreases n - k,
        {
            self.flush_index(k);
            k = k + 1;
        }
        Ok(())
    }

    /// Takes PES data of `pid`.
    fn handle_pes_data(&mut self, pid: u16, payload: &[u8], pusi: bool) -> (r: Result<(), Error>)
        requires
            old(self).wf(),
        ensures
            r is Ok,
            final(self).wf(),
            (final(self).model().2, final(self).model().3) == pes_step(
                old(self).model().2,
                old(self).model().3,
                old(self).model().1,
                pid,
                payload@,
                pusi,
            ),
            final(self).model().0 == old(self).model().0,
            final(self).model().1 == old(self).model().1,
            final(self).model().4 == old(self).model().4,
            final(self).reader == old(self).reader,
            final(self).streams == old(self).streams,
            final(self).streams_built == old(self).streams_built,
    {
        self.ensure_pes_state(pid);
        let ghost s1 = self.model().2;
        proof {
            lemma_ensure_pes(old(self).model().2, old(self).model().1, pid);
            lemma_find_pes(s1, pid);
        }
        let i = match self.find_pes_index(pid) {
            Some(i) => i,
            None => {
                return Ok(());
            },
        };
        assert(self.wf());
        if pusi {
            self.flush_index(i);
            assert(self.wf());
            let ghost s2 = self.model().2;
            if payload.len() >= 9 && payload[0] == 0x00 && payload[1] == 0x00 && payload[2] == 0x01 {
                let flags = (payload[7] >> 6u8) & 0x03u8;
                let header_end = 9 + payload[8] as usize;
                let pts = if flags >= 2 && payload.len() >= 14 {
                    let field = vstd::slice::slice_subrange(payload, 9, 14);
                    let v = parse_pts(field);
                    assert(pts_value(field@) == pts_value(payload@.skip(9)));
                    Some(v)
                } else {
                    None
                };
                let (p, mut st) = self.pes_state.remove(i);
                let mut data: Vec<u8> = Vec::new();
                if header_end < payload.len() {
                    crate::io::push_all(&mut data, vstd::slice::slice_subrange(payload, header_end, payload.len()));
                    assert(data@ =~= payload@.skip(header_end as int));
                }
                st.pts = pts;
                st.buffer = data;
                self.pes_state.insert(i, (p, st));
                assert(self.wf());
                assert(self.model().2 =~= s2.update(
                    i as int,
                    (s2[i as int].0, if (header_end as int) < payload@.len() {
                        payload@.skip(header_end as int)
                    } else {
                        Seq::empty()
                    }, pts, s2[i as int].3),
                ));
            }
        } else {
            let (p, mut st) = self.pes_state.remove(i);
            crate::io::push_all(&mut st.buffer, payload);
            self.pes_state.insert(i, (p, st));
            assert(self.model().2 =~= s1.update(
                i as int,
                (s1[i as int].0, s1[i as int].1 + payload@, s1[i as int].2, s1[i as int].3),
            ));
        }
        Ok(())
    }

    /// Reads one 188-byte packet and takes what it carries; `false`, with nothing read, where
    /// fewer than 188 bytes are left.
    #[verifier::rlimit(60)]
    fn read_one_ts_packet(&mut self) -> (r: Result<Option<bool>, Error>)
        requires
            old(self).wf(),
        ensures
            final(self).wf(),
            final(self).streams == old(self).streams,
            final(self).streams_built == old(self).streams_built,
            old(self).source().len() < 188 ==> r == Ok::<Option<bool>, Error>(Some(false)) && final(self).model()
                == old(self).model() && final(self).source() == old(self).source(),
            old(self).source().len() >= 188 ==> match ts_step(old(self).model(), old(self).source().take(188)) {
                None => r == Ok::<Option<bool>, Error>(None),
                Some(m2) => r == Ok::<Option<bool>, Error>(Some(true)) && final(self).model() == m2
                    && final(self).source() == old(self).source().skip(188),
            },
    {
        reveal(ts_step);
        let pkt = match self.reader.read_exact(TS_PACKET_SIZE) {
            Ok(p) => p,
            Err(_) => {
                return Ok(Some(false));
            },
        };
        if pkt[0] != SYNC_BYTE {
            return Ok(Some(true));
        }
        let payload_unit_start = (pkt[1] & 0x40) != 0;
        let pid = (((pkt[1] as u16) & 0x1F) << 8u16) | (pkt[2] as u16);
        let adaptation_field_control = (pkt[3] >> 4u8) & 0x03u8;
        let mut pos: usize = 4;
        if adaptation_field_control & 0x02u8 != 0 {
            pos = 5 + pkt[4] as usize;
        }
        if adaptation_field_control & 0x01u8 == 0 || pos >= TS_PACKET_SIZE {
            return Ok(Some(true));
        }
        let payload = vstd::slice::slice_subrange(pkt.as_slice(), pos, TS_PACKET_SIZE);
        assert(payload@ =~= pkt@.skip(pos as int));
        let is_pmt = match self.pmt_pid {
            Some(p) => p == pid,
            None => false,
        };
        if pid == PAT_PID {
            if !self.parse_pat(payload, payload_unit_start) {
                return Ok(None);
            }
        } else if is_pmt {
            if !self.parse_pmt(payload, payload_unit_start) {
                return Ok(None);
            }
        } else if self.has_pid_exec(pid) {
            self.handle_pes_data(pid, payload, payload_unit_start)?;
        }
        Ok(Some(true))
    }

    /// Makes the streams from the PIDs found, once: stream `i` is the `i`-th PID, with its id
    /// and kind, on the 90 kHz clock, named `h264`, `aac` or `subtitle` by its kind.
    fn build_streams(&mut self)
        requires
            !old(self).streams_built,
            old(self).streams.items@.len() == 0,
        ensures
            final(self).streams_built,
            final(self).model() == old(self).model(),
            final(self).source() == old(self).source(),
            final(self).wf() == old(self).wf(),
            final(self).streams.items@.len() == old(self).pid_map@.len(),
            forall|i: int| 0 <= i < old(self).pid_map@.len() ==> {
                let st = #[trigger] final(self).streams.items@[i];
                &&& st.id == old(self).pid_map@[i].1
                &&& st.index == i
                &&& st.kind == old(self).pid_map@[i].2
                &&& st.codec@ == kind_codec(old(self).pid_map@[i].2)
                &&& st.time == Time { num: 1, den: 90000 }
            },
    {
        let time = Time::new(1, 90000);
        let mut i: usize = 0;
        while i < self.pid_map.len()
            invariant
                i <= self.pid_map@.len(),
                self.streams.items@.len() == i,
                self.pid_map == old(self).pid_map,
                self.model() == old(self).model(),
                self.reader == old(self).reader,
                self.output_queue == old(self).output_queue,
                time == (Time { num: 1, den: 90000 }),
                forall|k: int| 0 <= k < i ==> {
                    let st = #[trigger] self.streams.items@[k];
                    &&& st.id == old(self).pid_map@[k].1
                    &&& st.index == k
                    &&& st.kind == old(self).pid_map@[k].2
                    &&& st.codec@ == kind_codec(old(self).pid_map@[k].2)
                    &&& st.time == Time { num: 1, den: 90000 }
                },
            decreases self.pid_map@.len() - i,
        {
            let (_pid, stream_id, kind) = self.pid_map[i];
            assert(self.pid_map@[i as int] == old(self).pid_map@[i as int]);
            let stream = Stream::new(stream_id, i, kind, kind_codec_string(kind), time);
            self.streams.add(stream);
            i = i + 1;
        }
        self.streams_built = true;
        assert(self.output_queue == old(self).output_queue);
    }

    /// Whether the demuxer holds what reading the first packets gave: the model `m`, the bytes
    /// `rest` left, and stream `i` made from the `i`-th stream the PMT listed, on the 90 kHz
    /// clock, named `h264`, `aac` or `subtitle` by its kind.
    pub open spec fn opened_as(&self, m: TsModel, rest: Seq<u8>) -> bool {
        &&& self.wf()
        &&& self.model() == m
        &&& self.source() == rest
        &&& self.spec_streams().items@.len() == m.1.len()
        &&& forall|i: int| 0 <= i < m.1.len() ==> {
            let st = #[trigger] self.spec_streams().items@[i];
            &&& st.id == m.1[i].1
            &&& st.index == i
            &&& st.kind == m.1[i].2
            &&& st.codec@ == kind_codec(m.1[i].2)
            &&& st.time == Time { num: 1, den: 90000 }
        }
    }

    /// Reads packets until the PAT and PMT were seen, 100 at most, and makes the streams
    /// from what the PMT lists, as `ts_open` reads them.
    pub fn new(reader: ByteReader) -> (r: Result<Self, Error>)
        requires
            ts_open(ts_init(), reader.rest(), 100) is Some,
        ensures
            r matches Ok(d) && {
                let (m, rest) = ts_open(ts_init(), reader.rest(), 100)->0;
                d.opened_as(m, rest)
            },
    {
        match Self::open(reader) {
            Some(d) => Ok(d),
            None => Err(Error::UnexpectedEof),
        }
    }

    /// Reads packets until the PAT and PMT were seen, 100 at most, and makes the streams
    /// from what the PMT lists, as `ts_open` reads them; `None` where a PAT or PMT section is
    /// too short to hold its CRC, so that the end of its entries would underflow.
    pub fn open(reader: ByteReader) -> (r: Option<Self>)
        ensures
            match ts_open(ts_init(), reader.rest(), 100) {
                None => r is None,
                Some((m, rest)) => r matches Some(d) && d.opened_as(m, rest),
            },
    {
        let mut demuxer = TsDemuxer {
            reader,
            streams: Streams::new_empty(),
            pmt_pid: None,
            pid_map: Vec::new(),
            pes_state: Vec::new(),
            output_queue: Vec::new(),
            pmt_parsed: false,
            streams_built: false,
        };
        assert(demuxer.model() =~= ts_init());
        let ghost goal = ts_open(ts_init(), demuxer.source(), 100);
        let mut k: u32 = 0;
        while k < 100
            invariant
                k <= 100,
                ts_open(demuxer.model(), demuxer.source(), (100 - k) as nat) == goal,
                goal == ts_open(ts_init(), reader.rest(), 100),
                demuxer.wf(),
                !demuxer.streams_built,
                demuxer.streams.items@.len() == 0,
            ensures
                k <= 100,
                ts_open(demuxer.model(), demuxer.source(), (100 - k) as nat) == goal,
                demuxer.wf(),
                !demuxer.streams_built,
                demuxer.streams.items@.len() == 0,
                k == 100 || demuxer.model().4,
            decreases 100 - k,
        {
            if demuxer.pmt_parsed {
                break;
            }
            let ghost m0 = demuxer.model();
            let ghost s0 = demuxer.source();
            match demuxer.read_one_ts_packet() {
                Ok(Some(_)) => {},
                _ => {
                    assert(ts_open(m0, s0, (100 - k) as nat) is None);
                    return None;
                },
            }
            k = k + 1;
        }
        assert(goal == Some((demuxer.model(), demuxer.source())));
        demuxer.build_streams();
        Some(demuxer)
    }

    /// The streams.
    pub fn streams(&self) -> (s: &Streams)
        ensures
            *s == self.spec_streams(),
    {
        &self.streams
    }

    /// Whether `after` and the packet `p` are what one step `x` of `ts_next` gives.
    pub open spec fn stepped(after: TsDemuxer, x: (Option<OutModel>, TsModel, Seq<u8>), p: Option<Packet>) -> bool {
        let (out, m, rest) = x;
        &&& after.model() == m
        &&& after.source() == rest
        &&& match out {
            None => p is None,
            Some((data, sid, pts)) => p matches Some(p) && p.data@ == data && p.stream_id == sid && p.pts == pts
                && p.time == (Time { num: 1, den: 90000 }) && !p.keyframe,
        }
    }

    /// The next packet: the last one queued first, else the next one the input completes; at
    /// the end of the input, what every PES buffer gathered; as `ts_next` reads it.
    pub fn read_packet(&mut self) -> (r: Result<Option<Packet>, Error>)
        requires
            old(self).wf(),
            ts_next(old(self).model(), old(self).source()) is Some,
        ensures
            final(self).wf(),
            final(self).spec_streams() == old(self).spec_streams(),
            r matches Ok(p) && Self::stepped(*final(self), ts_next(old(self).model(), old(self).source())->0, p),
    {
        match self.next_packet() {
            Some(r) => r,
            None => Err(Error::UnexpectedEof),
        }
    }

    /// The next packet, as `ts_next` reads it; `None` where a PAT or PMT section is too short
    /// to hold its CRC, so that the end of its entries would underflow.
    pub fn next_packet(&mut self) -> (r: Option<Result<Option<Packet>, Error>>)
        requires
            old(self).wf(),
        ensures
            final(self).wf(),
            final(self).spec_streams() == old(self).spec_streams(),
            match ts_next(old(self).model(), old(self).source()) {
                None => r is None,
                Some(x) => r matches Some(Ok(p)) && Self::stepped(*final(self), x, p),
            },
    {
        let ghost goal = ts_next(self.model(), self.source());
        loop
            invariant
                self.wf(),
                ts_next(self.model(), self.source()) == goal,
                goal == ts_next(old(self).model(), old(self).source()),
                self.streams == old(self).streams,
            decreases self.source().len(),
        {
            let ghost qs = self.model().3;
            if self.output_queue.len() > 0 {
                let ghost oq = self.output_queue@;
                let p = self.output_queue.pop().unwrap();
                proof {
                    assert(self.model().3 =~= qs.drop_last());
                    assert(out_model(p) == qs.last());
                    assert(p == oq[oq.len() - 1]);
                    assert forall|k: int| 0 <= k < self.output_queue@.len() implies #[trigger] self.output_queue@[k].time
                        == (Time { num: 1, den: 90000 }) && !self.output_queue@[k].keyframe by {
                        assert(self.output_queue@[k] == oq[k]);
                    }
                    assert(self.wf());
                }
                return Some(Ok(Some(p)));
            }
            let ghost s = self.source();
            let ghost m0 = self.model();
            let more = match self.read_one_ts_packet() {
                Ok(Some(b)) => b,
                Ok(None) => {
                    return None;
                },
                Err(e) => {
                    return Some(Err(e));
                },
            };
            if !more {
                assert(s.len() < 188);
                assert(m0.3.len() == 0);
                match self.flush_all_pes() {
                    Ok(()) => {},
                    Err(e) => {
                        return Some(Err(e));
                    },
                }
                let ghost fl = flush_all(m0.2, m0.3, 0);
                assert(self.model().2 == fl.0 && self.model().3 == fl.1);
                let ghost q2 = self.model().3;
                let ghost oq = self.output_queue@;
                proof {
                    assert(self.wf());
                    if oq.len() > 0 {
                        let k: int = oq.len() - 1;
                        assert(0 <= k < self.output_queue@.len());
                        assert(self.output_queue@[k].time == (Time { num: 1, den: 90000 }));
                        assert(!self.output_queue@[k].keyframe);
                    }
                }
                let p = self.output_queue.pop();
                proof {
                    if q2.len() > 0 {
                        assert(self.model().3 =~= q2.drop_last());
                        assert(p == Some(oq[oq.len() - 1]));
                        assert(out_model(oq[oq.len() - 1]) == q2.last());
                        assert(goal == Some((Some(fl.1.last()), (m0.0, m0.1, fl.0, fl.1.drop_last(), m0.4), s)));
                        let last = oq[oq.len() - 1];
                        assert(last.time == (Time { num: 1, den: 90000 }) && !last.keyframe);
                        assert(self.model() == (m0.0, m0.1, fl.0, fl.1.drop_last(), m0.4));
                    } else {
                        assert(goal == Some((None::<OutModel>, (m0.0, m0.1, fl.0, fl.1, m0.4), s)));
                        assert(self.model() == (m0.0, m0.1, fl.0, fl.1, m0.4));
                    }
                    assert forall|k: int| 0 <= k < self.output_queue@.len() implies #[trigger] self.output_queue@[k].time
                        == (Time { num: 1, den: 90000 }) && !self.output_queue@[k].keyframe by {
                        assert(self.output_queue@[k] == oq[k]);
                    }
                }
                return Some(Ok(p));
            }
        }
    }
}

} // verus!
