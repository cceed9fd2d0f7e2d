//! Reading the sample data of an uncompressed PCM stream in whole-frame packets.
use super::constants::CHUNK_SIZE_LIMIT;
use crate::error::Error;
use crate::io::ByteReader;
use crate::media::{Packet, Time};
use vstd::prelude::*;

verus! {

/// The largest multiple of `block_align` that is at most `CHUNK_SIZE_LIMIT`.
pub open spec fn max_chunk(block_align: int) -> int {
    (CHUNK_SIZE_LIMIT as int / block_align) * block_align
}

/// The number of bytes the next packet takes: the data left, capped at `max_chunk`, and then
/// at what the source still holds.
pub open spec fn next_chunk_len(remaining: int, block_align: int, available: int) -> int {
    let c = if remaining <= max_chunk(block_align) { remaining } else { max_chunk(block_align) };
    if c <= available { c } else { available }
}

/// How far a demuxer has come through the sample data.
#[derive(Debug, Clone, Copy, PartialEq, Eq)]
pub struct PcmCursor {
    /// Bytes of sample data not read yet.
    pub remaining_bytes: u64,
    /// Frames handed out so far: the presentation time of the next packet.
    pub samples_read: u64,
    /// Packets handed out so far.
    pub packet_count: u64,
}

impl PcmCursor {
    /// A cursor at the start of `remaining_bytes` bytes of sample data.
    pub fn new(remaining_bytes: u64) -> (c: PcmCursor)
        ensures
            c.remaining_bytes == remaining_bytes,
            c.samples_read == 0,
            c.packet_count == 0,
    {
        PcmCursor { remaining_bytes, samples_read: 0, packet_count: 0 }
    }

    /// The counters cannot pass `u64::MAX` while `available` bytes are left to read.
    pub open spec fn fits(self, available: nat) -> bool {
        &&& self.samples_read + available <= u64::MAX
        &&& self.packet_count + available <= u64::MAX
    }
}

/// The data a call handed out: the packet's, or nothing.
pub open spec fn handed_data(r: Option<Packet>) -> Seq<Seq<u8>> {
    match r {
        Some(p) => seq![p.data@],
        None => Seq::empty(),
    }
}

/// The data a demuxer's call handed out: the packet's, or nothing.
pub open spec fn handed_result(r: Result<Option<Packet>, Error>) -> Seq<Seq<u8>> {
    match r {
        Ok(Some(p)) => seq![p.data@],
        _ => Seq::empty(),
    }
}

/// Reads the next packet of PCM data: `next_chunk_len` bytes, stamped with the number of
/// frames before it; `None` once the data or the source is exhausted.
pub fn read_pcm_packet(
    reader: &mut ByteReader,
    cur: &mut PcmCursor,
    block_align: u16,
    bytes_per_frame: usize,
    time: Time,
) -> (r: Option<Packet>)
    requires
        block_align > 0,
        bytes_per_frame > 0,
        old(cur).fits(old(reader).rest().len()),
    ensures
        final(cur).fits(final(reader).rest().len()),
        ({
            let k = next_chunk_len(old(cur).remaining_bytes as int, block_align as int, old(reader).rest().len() as int);
            if old(cur).remaining_bytes == 0 || k == 0 {
                &&& r is None
                &&& *final(cur) == *old(cur)
                &&& final(reader).rest() == old(reader).rest()
            } else {
                &&& r matches Some(p)
                &&& p.data@ == old(reader).rest().take(k)
                &&& p.stream_id == 0
                &&& p.time == time
                &&& p.pts == old(cur).samples_read as i64
                &&& !p.keyframe
                &&& final(reader).rest() == old(reader).rest().skip(k)
                &&& final(cur).remaining_bytes == old(cur).remaining_bytes - k
                &&& final(cur).samples_read == old(cur).samples_read + k / (bytes_per_frame as int)
                &&& final(cur).packet_count == old(cur).packet_count + 1
            }
        }),
        pcm_chunks(old(reader).rest(), old(cur).remaining_bytes as int, block_align as int) == handed_data(r)
            + pcm_chunks(final(reader).rest(), final(cur).remaining_bytes as int, block_align as int),
        r is None ==> pcm_chunks(old(reader).rest(), old(cur).remaining_bytes as int, block_align as int)
            == Seq::<Seq<u8>>::empty(),
{
    if cur.remaining_bytes == 0 {
        return None;
    }
    let ba = block_align as u64;
    let q = CHUNK_SIZE_LIMIT as u64 / ba;
    assert(q * ba <= CHUNK_SIZE_LIMIT) by (nonlinear_arith)
        requires
            q == CHUNK_SIZE_LIMIT as u64 / ba,
            ba > 0,
    ;
    let max_chunk = q * ba;
    let chunk_size = if cur.remaining_bytes <= max_chunk { cur.remaining_bytes } else { max_chunk } as usize;
    let data = reader.read(chunk_size);
    let bytes_read = data.len();
    if bytes_read == 0 {
        return None;
    }
    cur.remaining_bytes = cur.remaining_bytes - bytes_read as u64;
    let packet = Packet::new(data, 0, time).with_pts(cur.samples_read as i64);
    let frames = bytes_read / bytes_per_frame;
    assert(frames <= bytes_read) by (nonlinear_arith)
        requires
            frames == bytes_read / bytes_per_frame,
            bytes_per_frame > 0,
    ;
    cur.samples_read = cur.samples_read + frames as u64;
    cur.packet_count = cur.packet_count + 1;
    Some(packet)
}

/// The data of the packets `read_pcm_packet` hands out one after the other, with
/// `remaining` bytes of sample data left and `src` in the source.
pub open spec fn pcm_chunks(src: Seq<u8>, remaining: int, block_align: int) -> Seq<Seq<u8>>
    decreases src.len(),
{
    let k = next_chunk_len(remaining, block_align, src.len() as int);
    if remaining <= 0 || k <= 0 {
        Seq::empty()
    } else {
        seq![src.take(k)] + pcm_chunks(src.skip(k), remaining - k, block_align)
    }
}

/// The packets a PCM demuxer hands out, joined, are its sample data as far as the source holds
/// it: nothing is lost, repeated or reordered.
pub proof fn law_pcm_packets_join_to_data(src: Seq<u8>, remaining: int, block_align: int)
    requires
        1 <= block_align <= CHUNK_SIZE_LIMIT,
        remaining >= 0,
    ensures
        pcm_chunks(src, remaining, block_align).flatten() == src.take(
            if remaining <= src.len() { remaining } else { src.len() as int },
        ),
    decreases src.len(),
{
    let m = max_chunk(block_align);
    assert(m >= block_align) by (nonlinear_arith)
        requires
            m == (CHUNK_SIZE_LIMIT as int / block_align) * block_align,
            1 <= block_align <= CHUNK_SIZE_LIMIT,
    ;
    let k = next_chunk_len(remaining, block_align, src.len() as int);
    if remaining <= 0 || k <= 0 {
        assert(src.take(0) =~= Seq::<u8>::empty());
    } else {
        let rest = src.skip(k);
        law_pcm_packets_join_to_data(rest, remaining - k, block_align);
        let n = if remaining <= src.len() { remaining } else { src.len() as int };
        let n2 = if remaining - k <= rest.len() { remaining - k } else { rest.len() as int };
        assert(n2 == n - k);
        assert(src.take(k) + rest.take(n2) =~= src.take(n));
        assert((seq![src.take(k)] + pcm_chunks(rest, remaining - k, block_align)).drop_first() =~= pcm_chunks(
            rest,
            remaining - k,
            block_align,
        ));
    }
}

/// Reading a PCM demuxer across calls: where the packets handed out so far, followed by the
/// chunks still to come, are the chunks of the data the demuxer started with, and none are to
/// come (a call gave `None`), the packets joined are that data, as far as the source held it.
/// Each `read_packet` of the WAVE, FLAC and raw PCM demuxers moves the first chunk still to
/// come into what it hands out, and gives `None` only where none is left.
pub proof fn law_pcm_reads_join(
    handed: Seq<Seq<u8>>,
    src0: Seq<u8>,
    remaining0: int,
    src: Seq<u8>,
    remaining: int,
    block_align: int,
)
    requires
        1 <= block_align <= CHUNK_SIZE_LIMIT,
        remaining0 >= 0,
        handed + pcm_chunks(src, remaining, block_align) == pcm_chunks(src0, remaining0, block_align),
        pcm_chunks(src, remaining, block_align).len() == 0,
    ensures
        handed.flatten() == src0.take(if remaining0 <= src0.len() { remaining0 } else { src0.len() as int }),
{
    law_pcm_packets_join_to_data(src0, remaining0, block_align);
    assert(handed =~= handed + pcm_chunks(src, remaining, block_align));
}

} // verus!
