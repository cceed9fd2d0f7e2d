//! What the transport stream demuxer reads back of the tables and PES packets the muxer writes.
use super::demuxer::{
    ensure_pes, find_pes, flush_at, has_pid, lemma_ensure_pes, lemma_find_pes, law_pts_roundtrip, pat_entries,
    pat_step, pes_step, pmt_entries, pmt_kind, pmt_step, psi_data, pts_value, section_end, ts_init, ts_open,
    ts_step, OutModel, PesModel, TsModel,
};
use super::muxer::{
    pat_section, pes_bytes, pid_bytes, pmt_entry, pmt_section, psi_payload, pts_bytes, section_len_bytes, stuffing,
    ts_packet, ts_split, lemma_ts_split_len, TsAudioTrack, TsVideoTrack, AUDIO_PID, PAT_PID, PMT_PID, SYNC_BYTE,
    VIDEO_PID,
};
use crate::io::fill;
use crate::media::StreamKind;
use vstd::prelude::*;

verus! {

proof fn lemma_pat_bytes()
    ensures
        pat_section() == seq![0x00u8, 0xB0, 13, 0x00, 0x01, 0xC1, 0x00, 0x00, 0x00, 0x01, 0xF0, 0x00],
{
    assert((0xB0u8 | (((13usize >> 8usize) as u8) & 0x0Fu8)) == 0xB0u8) by (bit_vector);
    assert((13usize as u8) == 13u8) by (bit_vector);
    assert((0xE0u8 | (((0x1000u16 >> 8u16) as u8) & 0x1Fu8)) == 0xF0u8) by (bit_vector);
    assert((0x1000u16 as u8) == 0u8) by (bit_vector);
    assert(section_len_bytes(13) =~= seq![0xB0u8, 13]);
    assert(pid_bytes(PMT_PID) =~= seq![0xF0u8, 0x00]);
    assert(pat_section() =~= seq![0x00u8, 0xB0, 13, 0x00, 0x01, 0xC1, 0x00, 0x00, 0x00, 0x01, 0xF0, 0x00]);
}

/// The program association table the muxer writes, in a packet payload that starts a unit,
/// names the PMT PID, whatever follows it in the packet.
pub proof fn lemma_pat_read_back(pmt: Option<u16>, tail: Seq<u8>)
    ensures
        pat_step(pmt, psi_payload(pat_section()) + tail, true) == Some(Some(PMT_PID)),
{
    lemma_pat_bytes();
    let payload = psi_payload(pat_section()) + tail;
    assert(payload[0] == 0);
    let data = payload.skip(1);
    assert(psi_data(payload, true) == Some(data));
    assert(data.len() >= 16);
    assert(data[0] == 0 && data[1] == 0xB0 && data[2] == 13);
    assert(data[8] == 0x00 && data[9] == 0x01 && data[10] == 0xF0 && data[11] == 0x00);
    assert(((((0xB0u8 as usize) & 0x0Fusize) << 8usize) | (13u8 as usize)) == 13usize) by (bit_vector);
    assert(section_end(data) == 16);
    assert(((0x00u8 as u16) << 8u16) | (0x01u8 as u16) == 1u16) by (bit_vector);
    assert(((((0xF0u8 as u16) & 0x1Fu16) << 8u16) | (0x00u8 as u16)) == 0x1000u16) by (bit_vector);
    assert(pat_entries(data, 12, 16, Some(PMT_PID)) == Some(PMT_PID));
    assert(pat_entries(data, 8, 16, pmt) == Some(PMT_PID));
}

/// The PID two `pid_bytes` hold.
proof fn lemma_pid_bytes(pid: u16)
    requires
        pid < 0x2000,
    ensures
        pid_bytes(pid).len() == 2,
        ((((pid_bytes(pid)[0] as u16) & 0x1Fu16) << 8u16) | (pid_bytes(pid)[1] as u16)) == pid,
{
    let b0: u8 = 0xE0u8 | (((pid >> 8u16) as u8) & 0x1Fu8);
    let b1: u8 = pid as u8;
    assert((((b0 as u16) & 0x1Fu16) << 8u16) | (b1 as u16) == pid) by (bit_vector)
        requires
            pid < 0x2000,
            b0 == 0xE0u8 | (((pid >> 8u16) as u8) & 0x1Fu8),
            b1 == pid as u8,
    ;
}

/// The streams the demuxer takes from the program map table of the tracks: each track whose
/// stream type it knows, the video track's first, numbered from zero.
pub open spec fn table_streams(v: Option<TsVideoTrack>, a: Option<TsAudioTrack>) -> Seq<(u16, u32, StreamKind)> {
    let vs: Seq<(u16, u32, StreamKind)> = match v {
        Some(t) => match pmt_kind(t.stream_type) {
            Some(k) => seq![(VIDEO_PID, 0u32, k)],
            None => Seq::empty(),
        },
        None => Seq::empty(),
    };
    let aus: Seq<(u16, u32, StreamKind)> = match a {
        Some(t) => match pmt_kind(t.stream_type) {
            Some(k) => seq![(AUDIO_PID, vs.len() as u32, k)],
            None => Seq::empty(),
        },
        None => Seq::empty(),
    };
    vs + aus
}

/// One entry of a program map table read.
proof fn lemma_pmt_entry_step(
    data: Seq<u8>,
    i: int,
    end: int,
    map: Seq<(u16, u32, StreamKind)>,
    idx: u32,
    st: u8,
    pid: u16,
)
    requires
        0 <= i,
        i + 5 <= end - 4,
        end <= data.len(),
        idx < 0xffff,
        pid < 0x2000,
        data.subrange(i, i + 5) == pmt_entry(st, pid),
    ensures
        pmt_entries(data, i, end, map, idx) == ({
            let add = pmt_kind(st) is Some && !has_pid(map, pid);
            pmt_entries(
                data,
                i + 5,
                end,
                if add { map.push((pid, idx, pmt_kind(st)->0)) } else { map },
                if add { (idx + 1) as u32 } else { idx },
            )
        }),
{
    lemma_pid_bytes(pid);
    let e = data.subrange(i, i + 5);
    assert(e[0] == data[i] && e[1] == data[i + 1] && e[2] == data[i + 2] && e[3] == data[i + 3] && e[4] == data[i
        + 4]);
    assert(pmt_entry(st, pid)[0] == st);
    assert(pmt_entry(st, pid)[1] == pid_bytes(pid)[0] && pmt_entry(st, pid)[2] == pid_bytes(pid)[1]);
    assert(pmt_entry(st, pid)[3] == 0xF0 && pmt_entry(st, pid)[4] == 0x00);
    assert(data[i] == st);
    assert(data[i + 1] == pid_bytes(pid)[0] && data[i + 2] == pid_bytes(pid)[1]);
    assert(data[i + 3] == 0xF0 && data[i + 4] == 0x00);
    assert(((((0xF0u8 as usize) & 0x0Fusize) << 8usize) | (0x00u8 as usize)) == 0usize) by (bit_vector);
}

proof fn lemma_section_len(n: usize)
    requires
        n < 256,
    ensures
        section_len_bytes(n) == seq![0xB0u8, n as u8],
        ((((0xB0u8 as usize) & 0x0Fusize) << 8usize) | ((n as u8) as usize)) == n,
{
    assert((0xB0u8 | (((n >> 8usize) as u8) & 0x0Fu8)) == 0xB0u8) by (bit_vector)
        requires
            n < 256,
    ;
    assert(((((0xB0u8 as usize) & 0x0Fusize) << 8usize) | ((n as u8) as usize)) == n) by (bit_vector)
        requires
            n < 256,
    ;
    assert(section_len_bytes(n) =~= seq![0xB0u8, n as u8]);
}

/// The program map table the muxer writes, in a packet payload that starts a unit, gives a
/// demuxer that has found no stream yet the streams of the tracks, and marks the table read.
#[verifier::rlimit(60)]
pub proof fn lemma_pmt_read_back(v: Option<TsVideoTrack>, a: Option<TsAudioTrack>, parsed: bool, tail: Seq<u8>)
    ensures
        pmt_step(Seq::empty(), parsed, psi_payload(pmt_section(v, a)) + tail, true) == Some(
            (table_streams(v, a), true),
        ),
{
    let k: int = (if v is Some { 1int } else { 0 }) + (if a is Some { 1int } else { 0 });
    let n = (13 + 5 * k) as usize;
    lemma_section_len(n);
    let pcr = if v is Some { VIDEO_PID } else { AUDIO_PID };
    lemma_pid_bytes(pcr);
    let ve: Seq<u8> = match v {
        Some(t) => pmt_entry(t.stream_type, VIDEO_PID),
        None => Seq::empty(),
    };
    let ae: Seq<u8> = match a {
        Some(t) => pmt_entry(t.stream_type, AUDIO_PID),
        None => Seq::empty(),
    };
    let sec = pmt_section(v, a);
    assert(sec =~= seq![0x02u8, 0xB0, n as u8, 0x00, 0x01, 0xC1, 0x00, 0x00] + pid_bytes(pcr) + seq![0xF0u8, 0x00]
        + ve + ae);
    assert(ve.len() + ae.len() == 5 * k);
    let payload = psi_payload(sec) + tail;
    let data = payload.skip(1);
    assert(payload[0] == 0);
    assert(psi_data(payload, true) == Some(data));
    assert(data.len() >= 12 + 5 * k + 4);
    assert(data[0] == 2 && data[1] == 0xB0 && data[2] == n as u8);
    assert(data[10] == 0xF0 && data[11] == 0x00);
    assert(section_end(data) == 16 + 5 * k);
    assert(((((0xF0u8 as usize) & 0x0Fusize) << 8usize) | (0x00u8 as usize)) == 0usize) by (bit_vector);
    let end = 16 + 5 * k;
    let e: Seq<(u16, u32, StreamKind)> = Seq::empty();
    match v {
        Some(t) => {
            assert(data.subrange(12, 17) =~= ve);
            lemma_pmt_entry_step(data, 12, end, e, 0, t.stream_type, VIDEO_PID);
            assert(!has_pid(e, VIDEO_PID));
            let add = pmt_kind(t.stream_type) is Some;
            let m1 = if add { e.push((VIDEO_PID, 0u32, pmt_kind(t.stream_type)->0)) } else { e };
            let i1: u32 = if add { 1 } else { 0 };
            match a {
                Some(u) => {
                    assert(data.subrange(17, 22) =~= ae);
                    lemma_pmt_entry_step(data, 17, end, m1, i1, u.stream_type, AUDIO_PID);
                    assert(!has_pid(m1, AUDIO_PID)) by {
                        if add {
                            assert(m1[0].0 == VIDEO_PID);
                        }
                    }
                    let add2 = pmt_kind(u.stream_type) is Some;
                    let m2 = if add2 { m1.push((AUDIO_PID, i1, pmt_kind(u.stream_type)->0)) } else { m1 };
                    assert(pmt_entries(data, 22, end, m2, if add2 { (i1 + 1) as u32 } else { i1 }) == m2);
                    assert(m2 =~= table_streams(v, a));
                },
                None => {
                    assert(pmt_entries(data, 17, end, m1, i1) == m1);
                    assert(m1 =~= table_streams(v, a));
                },
            }
        },
        None => {
            match a {
                Some(u) => {
                    assert(data.subrange(12, 17) =~= ae);
                    lemma_pmt_entry_step(data, 12, end, e, 0, u.stream_type, AUDIO_PID);
                    assert(!has_pid(e, AUDIO_PID));
                    let add2 = pmt_kind(u.stream_type) is Some;
                    let m2 = if add2 { e.push((AUDIO_PID, 0u32, pmt_kind(u.stream_type)->0)) } else { e };
                    assert(pmt_entries(data, 17, end, m2, if add2 { 1u32 } else { 0u32 }) == m2);
                    assert(m2 =~= table_streams(v, a));
                },
                None => {
                    assert(pmt_entries(data, 12, end, e, 0) == e);
                    assert(e =~= table_streams(v, a));
                },
            }
        },
    }
}

/// A packet that starts a unit, with no adaptation field, is read with its PID, its payload
/// from byte four on.
proof fn lemma_table_packet(pid: u16, cc: u8, payload: Seq<u8>)
    requires
        pid < 0x2000,
        1 <= payload.len() <= 184,
    ensures
        ({
            let pkt = ts_packet(pid, cc, true, None, payload);
            &&& pkt.len() == 188
            &&& pkt[0] == SYNC_BYTE
            &&& pkt[1] & 0x40u8 != 0
            &&& (((pkt[1] as u16) & 0x1F) << 8u16) | (pkt[2] as u16) == pid
            &&& ((pkt[3] >> 4u8) & 0x03u8) & 0x02u8 == 0
            &&& ((pkt[3] >> 4u8) & 0x03u8) & 0x01u8 != 0
            &&& pkt.skip(4) == payload + fill(0xFF, (184 - payload.len()) as nat)
        }),
{
    let pkt = ts_packet(pid, cc, true, None, payload);
    let b1: u8 = 0x40u8 | (((pid >> 8u16) as u8) & 0x1Fu8);
    let b2: u8 = pid as u8;
    let b3: u8 = 0x00u8 | 0x10u8 | (cc & 0x0Fu8);
    assert(pkt[1] == b1 && pkt[2] == b2 && pkt[3] == b3);
    assert(b1 & 0x40u8 != 0) by (bit_vector)
        requires
            b1 == 0x40u8 | (((pid >> 8u16) as u8) & 0x1Fu8),
    ;
    assert((((b1 as u16) & 0x1F) << 8u16) | (b2 as u16) == pid) by (bit_vector)
        requires
            pid < 0x2000,
            b1 == 0x40u8 | (((pid >> 8u16) as u8) & 0x1Fu8),
            b2 == pid as u8,
    ;
    assert(((b3 >> 4u8) & 0x03u8) & 0x02u8 == 0 && ((b3 >> 4u8) & 0x03u8) & 0x01u8 != 0) by (bit_vector)
        requires
            b3 == 0x00u8 | 0x10u8 | (cc & 0x0Fu8),
    ;
    assert(pkt.skip(4) =~= payload + fill(0xFF, (184 - payload.len()) as nat));
}

/// What the demuxer knows after reading the tables of the tracks.
pub open spec fn tables_read(v: Option<TsVideoTrack>, a: Option<TsAudioTrack>) -> TsModel {
    (Some(PMT_PID), table_streams(v, a), Seq::empty(), Seq::empty(), true)
}

/// What the demuxer knows after the association table: the PMT PID and nothing else.
pub open spec fn after_pat() -> TsModel {
    (Some(PMT_PID), Seq::empty(), Seq::empty(), Seq::empty(), false)
}

proof fn lemma_pat_packet(c1: u8)
    ensures
        ts_step(ts_init(), ts_packet(PAT_PID, c1, true, None, psi_payload(pat_section()))) == Some(
            after_pat(),
        ),
{
    reveal(ts_step);
    let pat = psi_payload(pat_section());
    lemma_pat_bytes();
    assert(pat.len() == 17);
    lemma_table_packet(PAT_PID, c1, pat);
    lemma_pat_read_back(None, fill(0xFF, 167));
}

/// A table packet on the PMT PID is read as `pmt_step` reads its payload.
proof fn lemma_pmt_packet_step(m: TsModel, pkt: Seq<u8>, payload: Seq<u8>)
    requires
        pkt.len() == 188,
        pkt[0] == SYNC_BYTE,
        pkt[1] & 0x40u8 != 0,
        (((pkt[1] as u16) & 0x1F) << 8u16) | (pkt[2] as u16) == PMT_PID,
        ((pkt[3] >> 4u8) & 0x03u8) & 0x02u8 == 0,
        ((pkt[3] >> 4u8) & 0x03u8) & 0x01u8 != 0,
        pkt.skip(4) == payload,
        m.0 == Some(PMT_PID),
    ensures
        ts_step(m, pkt) == match pmt_step(m.1, m.4, payload, true) {
            None => None,
            Some((map, parsed)) => Some((m.0, map, m.2, m.3, parsed)),
        },
{
    reveal(ts_step);
}

proof fn lemma_pmt_packet_of(sec: Seq<u8>, c2: u8, map: Seq<(u16, u32, StreamKind)>)
    requires
        sec.len() <= 167,
        pmt_step(Seq::empty(), false, psi_payload(sec) + fill(0xFF, (184 - (sec.len() + 5)) as nat), true) == Some(
            (map, true),
        ),
    ensures
        ts_step(after_pat(), ts_packet(PMT_PID, c2, true, None, psi_payload(sec))) == Some(
            (Some(PMT_PID), map, Seq::<PesModel>::empty(), Seq::<OutModel>::empty(), true),
        ),
{
    let pmt = psi_payload(sec);
    assert(pmt.len() == sec.len() + 5);
    lemma_table_packet(PMT_PID, c2, pmt);
    let tail = fill(0xFF, (184 - pmt.len()) as nat);
    let m = after_pat();
    let pkt = ts_packet(PMT_PID, c2, true, None, pmt);
    lemma_pmt_packet_step(m, pkt, pmt + tail);
}

proof fn lemma_pmt_packet(v: Option<TsVideoTrack>, a: Option<TsAudioTrack>, c2: u8)
    ensures
        ts_step(after_pat(), ts_packet(PMT_PID, c2, true, None, psi_payload(pmt_section(v, a)))) == Some(
            tables_read(v, a),
        ),
{
    let sec = pmt_section(v, a);
    let k: int = (if v is Some { 1int } else { 0 }) + (if a is Some { 1int } else { 0 });
    assert(sec.len() == 12 + 5 * k);
    lemma_pmt_read_back(v, a, false, fill(0xFF, (184 - (sec.len() + 5)) as nat));
    lemma_pmt_packet_of(sec, c2, table_streams(v, a));
}

/// The two table packets a new `TsMuxer` writes are read by a new `TsDemuxer` as the PMT PID
/// and the streams of the tracks whose stream types it knows, the video track's first; it
/// then stops reading tables, whatever follows.
#[verifier::rlimit(60)]
pub proof fn law_ts_tables_read_back(v: Option<TsVideoTrack>, a: Option<TsAudioTrack>, c1: u8, c2: u8, rest: Seq<u8>)
    ensures
        ts_open(
            ts_init(),
            ts_packet(PAT_PID, c1, true, None, psi_payload(pat_section())) + ts_packet(
                PMT_PID,
                c2,
                true,
                None,
                psi_payload(pmt_section(v, a)),
            ) + rest,
            100,
        ) == Some((tables_read(v, a), rest)),
{
    let pat = psi_payload(pat_section());
    let pmt = psi_payload(pmt_section(v, a));
    let p1 = ts_packet(PAT_PID, c1, true, None, pat);
    let p2 = ts_packet(PMT_PID, c2, true, None, pmt);
    lemma_pat_bytes();
    lemma_table_packet(PAT_PID, c1, pat);
    let k: int = (if v is Some { 1int } else { 0 }) + (if a is Some { 1int } else { 0 });
    assert(pmt_section(v, a).len() == 12 + 5 * k);
    lemma_table_packet(PMT_PID, c2, pmt);
    lemma_pat_packet(c1);
    lemma_pmt_packet(v, a, c2);
    let m1 = after_pat();
    let s = p1 + p2 + rest;
    assert(s.take(188) =~= p1);
    assert(s.skip(188) =~= p2 + rest);
    assert((p2 + rest).take(188) =~= p2);
    assert((p2 + rest).skip(188) =~= rest);
    assert(ts_open(tables_read(v, a), rest, 98) == Some((tables_read(v, a), rest)));
    assert(ts_open(m1, p2 + rest, 99) == Some((tables_read(v, a), rest)));
}

/// A packet of 184 payload bytes and no adaptation field is read with its PID, whether it
/// starts a unit, and its payload from byte four on.
proof fn lemma_full_packet(pid: u16, cc: u8, pusi: bool, payload: Seq<u8>)
    requires
        pid < 0x2000,
        payload.len() == 184,
    ensures
        ({
            let pkt = ts_packet(pid, cc, pusi, None, payload);
            &&& pkt.len() == 188
            &&& pkt[0] == SYNC_BYTE
            &&& (pkt[1] & 0x40u8 != 0) == pusi
            &&& (((pkt[1] as u16) & 0x1F) << 8u16) | (pkt[2] as u16) == pid
            &&& ((pkt[3] >> 4u8) & 0x03u8) & 0x02u8 == 0
            &&& ((pkt[3] >> 4u8) & 0x03u8) & 0x01u8 != 0
            &&& pkt.skip(4) == payload
        }),
{
    let pkt = ts_packet(pid, cc, pusi, None, payload);
    let t: u8 = if pusi { 0x40u8 } else { 0x00u8 };
    let b1: u8 = t | (((pid >> 8u16) as u8) & 0x1Fu8);
    let b2: u8 = pid as u8;
    let b3: u8 = 0x00u8 | 0x10u8 | (cc & 0x0Fu8);
    assert(pkt[1] == b1 && pkt[2] == b2 && pkt[3] == b3);
    assert((b1 & 0x40u8 != 0) == (t == 0x40u8)) by (bit_vector)
        requires
            t == 0x40u8 || t == 0x00u8,
            b1 == t | (((pid >> 8u16) as u8) & 0x1Fu8),
    ;
    assert((((b1 as u16) & 0x1F) << 8u16) | (b2 as u16) == pid) by (bit_vector)
        requires
            pid < 0x2000,
            t == 0x40u8 || t == 0x00u8,
            b1 == t | (((pid >> 8u16) as u8) & 0x1Fu8),
            b2 == pid as u8,
    ;
    assert(((b3 >> 4u8) & 0x03u8) & 0x02u8 == 0 && ((b3 >> 4u8) & 0x03u8) & 0x01u8 != 0) by (bit_vector)
        requires
            b3 == 0x00u8 | 0x10u8 | (cc & 0x0Fu8),
    ;
    assert(pkt.skip(4) =~= payload);
}

/// The last packet of a PES packet, padded by an adaptation field, is read with its PID,
/// whether it starts a unit, and exactly the payload after the field.
proof fn lemma_last_packet(pid: u16, cc: u8, pusi: bool, payload: Seq<u8>)
    requires
        pid < 0x2000,
        1 <= payload.len() <= 183,
    ensures
        ({
            let pkt = ts_packet(pid, cc, pusi, Some(stuffing(payload.len() as int)), payload);
            &&& pkt.len() == 188
            &&& pkt[0] == SYNC_BYTE
            &&& (pkt[1] & 0x40u8 != 0) == pusi
            &&& (((pkt[1] as u16) & 0x1F) << 8u16) | (pkt[2] as u16) == pid
            &&& ((pkt[3] >> 4u8) & 0x03u8) & 0x02u8 != 0
            &&& ((pkt[3] >> 4u8) & 0x03u8) & 0x01u8 != 0
            &&& 5 + pkt[4] as int == 188 - payload.len()
            &&& pkt.skip(188 - payload.len()) == payload
        }),
{
    let r = payload.len() as int;
    let st = stuffing(r);
    assert(st.len() == 183 - r);
    let pkt = ts_packet(pid, cc, pusi, Some(st), payload);
    let t: u8 = if pusi { 0x40u8 } else { 0x00u8 };
    let b1: u8 = t | (((pid >> 8u16) as u8) & 0x1Fu8);
    let b2: u8 = pid as u8;
    let b3: u8 = 0x20u8 | 0x10u8 | (cc & 0x0Fu8);
    assert(pkt[1] == b1 && pkt[2] == b2 && pkt[3] == b3);
    assert(pkt[4] == (st.len() as u8));
    assert((b1 & 0x40u8 != 0) == (t == 0x40u8)) by (bit_vector)
        requires
            t == 0x40u8 || t == 0x00u8,
            b1 == t | (((pid >> 8u16) as u8) & 0x1Fu8),
    ;
    assert((((b1 as u16) & 0x1F) << 8u16) | (b2 as u16) == pid) by (bit_vector)
        requires
            pid < 0x2000,
            t == 0x40u8 || t == 0x00u8,
            b1 == t | (((pid >> 8u16) as u8) & 0x1Fu8),
            b2 == pid as u8,
    ;
    assert(((b3 >> 4u8) & 0x03u8) & 0x02u8 != 0 && ((b3 >> 4u8) & 0x03u8) & 0x01u8 != 0) by (bit_vector)
        requires
            b3 == 0x20u8 | 0x10u8 | (cc & 0x0Fu8),
    ;
    assert(pkt.skip(188 - r) =~= payload);
}

/// Reading 188-byte packets one after the other, while no table makes the demuxer fail; what
/// is left at the end, short of a packet, is not read.
pub open spec fn ts_steps(m: TsModel, s: Seq<u8>) -> Option<TsModel>
    decreases s.len(),
{
    if s.len() < 188 {
        Some(m)
    } else {
        match ts_step(m, s.take(188)) {
            None => None,
            Some(m2) => ts_steps(m2, s.skip(188)),
        }
    }
}

proof fn lemma_ts_steps_cons(m: TsModel, pkt: Seq<u8>, rest: Seq<u8>, m2: TsModel)
    requires
        pkt.len() == 188,
        ts_step(m, pkt) == Some(m2),
    ensures
        ts_steps(m, pkt + rest) == ts_steps(m2, rest),
{
    assert((pkt + rest).take(188) =~= pkt);
    assert((pkt + rest).skip(188) =~= rest);
}

/// A packet of a PES stream the demuxer knows is read as `pes_step` reads its payload.
proof fn lemma_pes_packet_step(m: TsModel, pkt: Seq<u8>, pid: u16, pusi: bool, pos: int, payload: Seq<u8>)
    requires
        pkt.len() == 188,
        pkt[0] == SYNC_BYTE,
        (pkt[1] & 0x40u8 != 0) == pusi,
        (((pkt[1] as u16) & 0x1F) << 8u16) | (pkt[2] as u16) == pid,
        ((pkt[3] >> 4u8) & 0x03u8) & 0x01u8 != 0,
        pos == (if ((pkt[3] >> 4u8) & 0x03u8) & 0x02u8 != 0 { 5 + pkt[4] as int } else { 4int }),
        pos < 188,
        pkt.skip(pos) == payload,
        pid != PAT_PID,
        m.0 != Some(pid),
        has_pid(m.1, pid),
    ensures
        ts_step(m, pkt) == Some(
            (
                m.0,
                m.1,
                pes_step(m.2, m.3, m.1, pid, payload, pusi).0,
                pes_step(m.2, m.3, m.1, pid, payload, pusi).1,
                m.4,
            ),
        ),
{
    reveal(ts_step);
}

proof fn lemma_find_pes_update(states: Seq<PesModel>, i: int, e: PesModel, pid: u16)
    requires
        0 <= i < states.len(),
        e.0 == states[i].0,
    ensures
        find_pes(states.update(i, e), pid) == find_pes(states, pid),
    decreases states.len(),
{
    if states.len() > 0 && states[0].0 != pid {
        if i > 0 {
            assert(states.update(i, e).skip(1) =~= states.skip(1).update(i - 1, e));
            lemma_find_pes_update(states.skip(1), i - 1, e, pid);
        } else {
            assert(states.update(i, e).skip(1) =~= states.skip(1));
        }
    }
}

/// Reading the packets after the first of a PES packet adds their payloads to the buffer of
/// its PID.
proof fn lemma_split_tail(m: TsModel, pid: u16, cc: u8, pes: Seq<u8>, i: int)
    requires
        pid < 0x2000,
        pid != PAT_PID,
        m.0 != Some(pid),
        has_pid(m.1, pid),
        find_pes(m.2, pid) == Some(i),
    ensures
        ts_steps(m, ts_split(pid, cc, false, pes)) == Some(
            (m.0, m.1, m.2.update(i, (m.2[i].0, m.2[i].1 + pes, m.2[i].2, m.2[i].3)), m.3, m.4),
        ),
    decreases pes.len(),
{
    lemma_find_pes(m.2, pid);
    lemma_ensure_pes(m.2, m.1, pid);
    if pes.len() == 0 {
        assert(m.2[i].1 + pes =~= m.2[i].1);
        assert(m.2.update(i, (m.2[i].0, m.2[i].1 + pes, m.2[i].2, m.2[i].3)) =~= m.2);
    } else if pes.len() >= 184 {
        let p = pes.take(184);
        lemma_full_packet(pid, cc, false, p);
        let pkt = ts_packet(pid, cc, false, None, p);
        lemma_pes_packet_step(m, pkt, pid, false, 4, p);
        let st2 = m.2.update(i, (m.2[i].0, m.2[i].1 + p, m.2[i].2, m.2[i].3));
        let m2: TsModel = (m.0, m.1, st2, m.3, m.4);
        assert(ts_step(m, pkt) == Some(m2));
        lemma_ts_steps_cons(m, pkt, ts_split(pid, (cc + 1) as u8 & 0x0F, false, pes.skip(184)), m2);
        lemma_find_pes_update(m.2, i, (m.2[i].0, m.2[i].1 + p, m.2[i].2, m.2[i].3), pid);
        lemma_split_tail(m2, pid, (cc + 1) as u8 & 0x0F, pes.skip(184), i);
        assert(m.2[i].1 + p + pes.skip(184) =~= m.2[i].1 + pes);
        assert(st2.update(i, (st2[i].0, st2[i].1 + pes.skip(184), st2[i].2, st2[i].3)) =~= m.2.update(
            i,
            (m.2[i].0, m.2[i].1 + pes, m.2[i].2, m.2[i].3),
        ));
    } else {
        lemma_last_packet(pid, cc, false, pes);
        let pkt = ts_packet(pid, cc, false, Some(stuffing(pes.len() as int)), pes);
        lemma_pes_packet_step(m, pkt, pid, false, 188 - pes.len(), pes);
        let m2: TsModel = (m.0, m.1, m.2.update(i, (m.2[i].0, m.2[i].1 + pes, m.2[i].2, m.2[i].3)), m.3, m.4);
        assert(ts_step(m, pkt) == Some(m2));
        assert(ts_split(pid, cc, false, pes) == pkt);
        assert(pkt + Seq::<u8>::empty() =~= pkt);
        lemma_ts_steps_cons(m, pkt, Seq::empty(), m2);
    }
}

/// What the demuxer knows after reading one PES packet of `pid` with time stamp `pts` and
/// `data`: what the buffer of `pid` held is queued as a packet (where it held anything), and
/// the buffer holds `data` and `pts`.
pub open spec fn pes_read(m: TsModel, pid: u16, pts: u64, data: Seq<u8>) -> TsModel {
    let s1 = ensure_pes(m.2, m.1, pid);
    let i = find_pes(s1, pid)->0;
    let (s2, q2) = flush_at(s1, m.3, i);
    (m.0, m.1, s2.update(i, (s2[i].0, data, Some(pts), s2[i].3)), q2, m.4)
}

/// The start of a PES packet is read as its time stamp and the data after its header.
proof fn lemma_pes_head(sid: u8, pts: u64, data: Seq<u8>, p: Seq<u8>)
    requires
        pts < 0x2_0000_0000u64,
        p == pes_bytes(sid, pts, data).take(p.len() as int),
        14 <= p.len() <= pes_bytes(sid, pts, data).len(),
    ensures
        p.len() >= 9 && p[0] == 0 && p[1] == 0 && p[2] == 1,
        (p[7] >> 6u8) & 0x03u8 == 2,
        9 + p[8] as int == 14,
        pts_value(p.skip(9)) == pts,
        p.skip(14) == data.take(p.len() - 14),
{
    let pes = pes_bytes(sid, pts, data);
    assert(pes.len() == 14 + data.len());
    assert(p[0] == pes[0] && p[1] == pes[1] && p[2] == pes[2] && p[7] == pes[7] && p[8] == pes[8]);
    assert(pes[7] == 0x80 && pes[8] == 0x05);
    assert((0x80u8 >> 6u8) & 0x03u8 == 2) by (bit_vector);
    law_pts_roundtrip(pts);
    let b = p.skip(9);
    assert(b[0] == pts_bytes(pts)[0] && b[1] == pts_bytes(pts)[1] && b[2] == pts_bytes(pts)[2] && b[3] == pts_bytes(
        pts,
    )[3] && b[4] == pts_bytes(pts)[4]);
    assert(p.skip(14) =~= data.take(p.len() - 14));
}

/// The first packet of a PES packet is read as `pes_step` reads a unit start.
#[verifier::rlimit(60)]
proof fn lemma_pes_first_step(m: TsModel, pid: u16, sid: u8, pts: u64, data: Seq<u8>, p: Seq<u8>)
    requires
        pts < 0x2_0000_0000u64,
        p == pes_bytes(sid, pts, data).take(p.len() as int),
        14 <= p.len() <= pes_bytes(sid, pts, data).len(),
    ensures
        ({
            let s1 = ensure_pes(m.2, m.1, pid);
            let i = find_pes(s1, pid)->0;
            let (s2, q2) = flush_at(s1, m.3, i);
            pes_step(m.2, m.3, m.1, pid, p, true) == (s2.update(i, (s2[i].0, p.skip(14), Some(pts), s2[i].3)), q2)
        }),
{
    lemma_pes_head(sid, pts, data, p);
    if p.len() == 14 {
        assert(p.skip(14) =~= Seq::<u8>::empty());
    }
}

proof fn lemma_flush_keeps_find(m: TsModel, pid: u16)
    ensures
        ({
            let s1 = ensure_pes(m.2, m.1, pid);
            let i = find_pes(s1, pid)->0;
            let (s2, q2) = flush_at(s1, m.3, i);
            &&& find_pes(s1, pid) == Some(i)
            &&& 0 <= i < s2.len()
            &&& s2.len() == s1.len()
            &&& find_pes(s2, pid) == Some(i)
            &&& s2[i].0 == pid
        }),
{
    lemma_ensure_pes(m.2, m.1, pid);
    let s1 = ensure_pes(m.2, m.1, pid);
    let i = find_pes(s1, pid)->0;
    lemma_find_pes(s1, pid);
    if s1[i].1.len() > 0 {
        lemma_find_pes_update(s1, i, (s1[i].0, Seq::empty(), s1[i].2, s1[i].3), pid);
    }
}

#[verifier::rlimit(60)]
proof fn lemma_pes_long(m: TsModel, pid: u16, cc: u8, sid: u8, pts: u64, data: Seq<u8>)
    requires
        pid < 0x2000,
        pid != PAT_PID,
        m.0 != Some(pid),
        has_pid(m.1, pid),
        pts < 0x2_0000_0000u64,
        pes_bytes(sid, pts, data).len() >= 184,
    ensures
        ts_steps(m, ts_split(pid, cc, true, pes_bytes(sid, pts, data))) == Some(pes_read(m, pid, pts, data)),
{
    let pes = pes_bytes(sid, pts, data);
    assert(pes.len() == 14 + data.len());
    lemma_flush_keeps_find(m, pid);
    let s1 = ensure_pes(m.2, m.1, pid);
    let i = find_pes(s1, pid)->0;
    let (s2, q2) = flush_at(s1, m.3, i);
    let p = pes.take(184);
    lemma_pes_first_step(m, pid, sid, pts, data, p);
    let d0 = p.skip(14);
    let s3 = s2.update(i, (s2[i].0, d0, Some(pts), s2[i].3));
    lemma_full_packet(pid, cc, true, p);
    let pkt = ts_packet(pid, cc, true, None, p);
    lemma_pes_packet_step(m, pkt, pid, true, 4, p);
    let m2: TsModel = (m.0, m.1, s3, q2, m.4);
    let cc2 = (cc + 1) as u8 & 0x0F;
    assert(ts_split(pid, cc, true, pes) == pkt + ts_split(pid, cc2, false, pes.skip(184)));
    lemma_ts_steps_cons(m, pkt, ts_split(pid, cc2, false, pes.skip(184)), m2);
    lemma_find_pes_update(s2, i, (s2[i].0, d0, Some(pts), s2[i].3), pid);
    lemma_split_tail(m2, pid, cc2, pes.skip(184), i);
    assert(d0 + pes.skip(184) =~= data);
    assert(s3.update(i, (s3[i].0, s3[i].1 + pes.skip(184), s3[i].2, s3[i].3)) =~= s2.update(
        i,
        (s2[i].0, data, Some(pts), s2[i].3),
    ));
}

#[verifier::rlimit(60)]
proof fn lemma_pes_short(m: TsModel, pid: u16, cc: u8, sid: u8, pts: u64, data: Seq<u8>)
    requires
        pid < 0x2000,
        pid != PAT_PID,
        m.0 != Some(pid),
        has_pid(m.1, pid),
        pts < 0x2_0000_0000u64,
        pes_bytes(sid, pts, data).len() < 184,
    ensures
        ts_steps(m, ts_split(pid, cc, true, pes_bytes(sid, pts, data))) == Some(pes_read(m, pid, pts, data)),
{
    let pes = pes_bytes(sid, pts, data);
    assert(pes.len() == 14 + data.len());
    lemma_flush_keeps_find(m, pid);
    assert(pes.take(pes.len() as int) =~= pes);
    lemma_pes_first_step(m, pid, sid, pts, data, pes);
    lemma_pes_head(sid, pts, data, pes);
    assert(pes.skip(14) =~= data);
    lemma_last_packet(pid, cc, true, pes);
    let pkt = ts_packet(pid, cc, true, Some(stuffing(pes.len() as int)), pes);
    lemma_pes_packet_step(m, pkt, pid, true, 188 - pes.len(), pes);
    assert(ts_split(pid, cc, true, pes) == pkt);
    assert(pkt + Seq::<u8>::empty() =~= pkt);
    lemma_ts_steps_cons(m, pkt, Seq::empty(), pes_read(m, pid, pts, data));
}

/// The packets a `TsMuxer` writes for one PES packet of a stream the demuxer knows are read
/// back as that packet's data and time stamp in the buffer of its PID, and what the buffer
/// held before is queued; the time stamp must fit the 33 bits of a PTS.
pub proof fn law_ts_pes_read_back(m: TsModel, pid: u16, cc: u8, sid: u8, pts: u64, data: Seq<u8>)
    requires
        pid < 0x2000,
        pid != PAT_PID,
        m.0 != Some(pid),
        has_pid(m.1, pid),
        pts < 0x2_0000_0000u64,
    ensures
        ts_steps(m, ts_split(pid, cc, true, pes_bytes(sid, pts, data))) == Some(pes_read(m, pid, pts, data)),
{
    if pes_bytes(sid, pts, data).len() >= 184 {
        lemma_pes_long(m, pid, cc, sid, pts, data);
    } else {
        lemma_pes_short(m, pid, cc, sid, pts, data);
    }
}

/// Reading two runs of whole packets one after the other is reading the first, then the second
/// from where the first left the demuxer.
proof fn lemma_ts_steps_append(m: TsModel, a: Seq<u8>, b: Seq<u8>, m1: TsModel)
    requires
        a.len() % 188 == 0,
        ts_steps(m, a) == Some(m1),
    ensures
        ts_steps(m, a + b) == ts_steps(m1, b),
    decreases a.len(),
{
    if a.len() == 0 {
        assert(a + b =~= b);
    } else {
        let pkt = a.take(188);
        assert(a =~= pkt + a.skip(188));
        let m2 = ts_step(m, pkt)->0;
        lemma_ts_steps_cons(m, pkt, a.skip(188), m2);
        lemma_ts_steps_append(m2, a.skip(188), b, m1);
        assert(a + b =~= pkt + (a.skip(188) + b));
        lemma_ts_steps_cons(m, pkt, a.skip(188) + b, m2);
    }
}

/// What the demuxer knows after reading PES packets one after the other, each of a PID, a time
/// stamp and data: each read as `pes_read` reads it.
pub open spec fn pes_reads(m: TsModel, pids: Seq<u16>, ptss: Seq<u64>, datas: Seq<Seq<u8>>) -> TsModel
    decreases pids.len(),
{
    if pids.len() == 0 || ptss.len() == 0 || datas.len() == 0 {
        m
    } else {
        pes_reads(pes_read(m, pids[0], ptss[0], datas[0]), pids.drop_first(), ptss.drop_first(), datas.drop_first())
    }
}

/// The packets a `TsMuxer` writes for a whole stream of PES packets, one after the other, each
/// of a stream the demuxer knows, are read back PES packet by PES packet: after them the
/// demuxer knows what reading each in turn with `pes_read` gives, so that each PES packet's
/// data and time stamp stand in the buffer of its PID until the next one of that PID queues
/// them. The continuity counters may be anything; the time stamps must fit 33 bits.
pub proof fn law_ts_stream_read_back(
    m: TsModel,
    pids: Seq<u16>,
    ccs: Seq<u8>,
    sids: Seq<u8>,
    ptss: Seq<u64>,
    datas: Seq<Seq<u8>>,
    pkts: Seq<Seq<u8>>,
)
    requires
        pids.len() == ccs.len() == sids.len() == ptss.len() == datas.len() == pkts.len(),
        forall|i: int|
            0 <= i < pids.len() ==> {
                &&& #[trigger] pids[i] < 0x2000
                &&& pids[i] != PAT_PID
                &&& m.0 != Some(pids[i])
                &&& has_pid(m.1, pids[i])
                &&& ptss[i] < 0x2_0000_0000u64
                &&& pkts[i] == ts_split(pids[i], ccs[i], true, pes_bytes(sids[i], ptss[i], datas[i]))
            },
    ensures
        ts_steps(m, pkts.flatten()) == Some(pes_reads(m, pids, ptss, datas)),
    decreases pids.len(),
{
    if pids.len() == 0 {
        assert(pkts.flatten() =~= Seq::<u8>::empty());
    } else {
        assert(pids[0] < 0x2000);
        let p0 = pkts[0];
        law_ts_pes_read_back(m, pids[0], ccs[0], sids[0], ptss[0], datas[0]);
        lemma_ts_split_len(pids[0], ccs[0], true, pes_bytes(sids[0], ptss[0], datas[0]));
        let m1 = pes_read(m, pids[0], ptss[0], datas[0]);
        assert(pkts.flatten() == p0 + pkts.drop_first().flatten());
        lemma_ts_steps_append(m, p0, pkts.drop_first().flatten(), m1);
        assert forall|i: int| 0 <= i < pids.drop_first().len() implies {
            &&& #[trigger] pids.drop_first()[i] < 0x2000
            &&& pids.drop_first()[i] != PAT_PID
            &&& m1.0 != Some(pids.drop_first()[i])
            &&& has_pid(m1.1, pids.drop_first()[i])
            &&& ptss.drop_first()[i] < 0x2_0000_0000u64
            &&& pkts.drop_first()[i] == ts_split(
                pids.drop_first()[i],
                ccs.drop_first()[i],
                true,
                pes_bytes(sids.drop_first()[i], ptss.drop_first()[i], datas.drop_first()[i]),
            )
        } by {
            assert(pids[i + 1] < 0x2000);
        }
        law_ts_stream_read_back(
            m1,
            pids.drop_first(),
            ccs.drop_first(),
            sids.drop_first(),
            ptss.drop_first(),
            datas.drop_first(),
            pkts.drop_first(),
        );
    }
}

} // verus!
