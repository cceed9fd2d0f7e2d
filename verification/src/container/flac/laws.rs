use super::demuxer::{flac_parse, streaminfo_channels, streaminfo_depth, streaminfo_rate};
use crate::container::chunked::{law_pcm_packets_join_to_data, pcm_chunks};
use crate::container::CHUNK_SIZE_LIMIT;
use super::format::FlacFormat;
use super::muxer::{flac_header_bytes, streaminfo_byte12, streaminfo_bytes};
use crate::io::{fcc, law_writes_at_end_append, write_in_turn};
use vstd::prelude::*;

verus! {

/// What the FLAC muxer writes as its header, the FLAC demuxer reads back: the same sample
/// rate, the same number of channels and the same bit depth, with the frame data after the
/// header left as it is, for rates below 2^20, one to eight channels and depths of one to 32
/// bits (the fields' widths).
pub proof fn law_flac_header_roundtrip(f: FlacFormat, d: Seq<u8>)
    requires
        f.sample_rate < 0x100000,
        1 <= f.channels.spec_count() <= 8,
        1 <= f.bit_depth <= 32,
    ensures
        flac_parse(flac_header_bytes(f) + d) matches Ok((g, rest)) && rest == d && g.sample_rate == f.sample_rate
            && g.channels.spec_count() == f.channels.spec_count() && g.bit_depth == f.bit_depth,
{
    let s = flac_header_bytes(f) + d;
    let body = streaminfo_bytes(f);
    assert(s.take(4) =~= fcc(0x66, 0x4c, 0x61, 0x43));
    assert(s.skip(4) =~= seq![0x80u8, 0u8, 0u8, 34u8] + body + d);
    let b = s.skip(4).skip(4);
    assert(b =~= body + d);
    assert(b.skip(34) =~= d);
    let sr = f.sample_rate;
    let ch = (f.channels.spec_count() - 1) as u8;
    let bd = (f.bit_depth - 1) as u8;
    let b12 = streaminfo_byte12(sr, ch, bd);
    let b13 = ((bd & 0xfu8) << 4u8) as u8;
    assert(b[12] == b12);
    assert(b[13] == b13);
    assert(((b12 >> 1u8) & 7u8) == ch) by (bit_vector)
        requires
            ch < 8,
            b12 == (((sr & 0xfu32) << 4u32) as u8 | ((ch & 7u8) << 1u8)) | ((bd >> 4u8) & 1u8),
    ;
    assert((((b12 & 1u8) << 4u8) | ((b13 >> 4u8) & 0xfu8)) == bd) by (bit_vector)
        requires
            bd < 32,
            b12 == (((sr & 0xfu32) << 4u32) as u8 | ((ch & 7u8) << 1u8)) | ((bd >> 4u8) & 1u8),
            b13 == ((bd & 0xfu8) << 4u8) as u8,
    ;
    assert(0x80u8 & 0x80u8 != 0) by (bit_vector);
    assert(0x80u8 & 0x7fu8 == 0) by (bit_vector);
    assert(s.skip(4)[0] == 0x80u8);
    assert(streaminfo_channels(b) == ch + 1);
    assert(streaminfo_depth(b) == f.bit_depth);
    let b10 = ((sr >> 12u32) & 0xffu32) as u8;
    let b11 = ((sr >> 4u32) & 0xffu32) as u8;
    assert(b[10] == b10);
    assert(b[11] == b11);
    assert(((b10 as u32) << 12u32) | ((b11 as u32) << 4u32) | ((b12 as u32) >> 4u32) == sr) by (bit_vector)
        requires
            sr < 0x100000u32,
            b10 == ((sr >> 12u32) & 0xffu32) as u8,
            b11 == ((sr >> 4u32) & 0xffu32) as u8,
            b12 == (((sr & 0xfu32) << 4u32) as u8 | ((ch & 7u8) << 1u8)) | ((bd >> 4u8) & 1u8),
    ;
    assert(streaminfo_rate(b) == sr);
}

/// The packets the FLAC demuxer hands out, joined, are all the bytes after the last metadata
/// block: the demuxer starts with that many bytes to read, and `read_packet` hands them out in
/// order, as `pcm_chunks` lists them, for any frame size of 1 to 65536 bytes.
pub proof fn law_flac_packets_join_to_frames(s: Seq<u8>, block_align: int)
    requires
        1 <= block_align <= CHUNK_SIZE_LIMIT,
    ensures
        flac_parse(s) matches Ok((f, rest)) ==> pcm_chunks(rest, rest.len() as int, block_align).flatten()
            == rest,
{
    if let Ok((f, rest)) = flac_parse(s) {
        law_pcm_packets_join_to_data(rest, rest.len() as int, block_align);
        assert(rest.take(rest.len() as int) =~= rest);
    }
}

/// What the FLAC muxer writes on an empty sink — its header, then each packet's data in turn,
/// with nothing patched when it finalizes — is the header followed by the packets' data; the
/// FLAC demuxer reads that header and hands the data back, in packets that joined are exactly
/// that data.
pub proof fn law_flac_mux_then_demux(f: FlacFormat, ds: Seq<Seq<u8>>, block_align: int)
    requires
        f.sample_rate < 0x100000,
        1 <= f.channels.spec_count() <= 8,
        1 <= f.bit_depth <= 32,
        1 <= block_align <= CHUNK_SIZE_LIMIT,
    ensures
        write_in_turn(flac_header_bytes(f), flac_header_bytes(f).len() as int, ds) == flac_header_bytes(f)
            + ds.flatten(),
        flac_parse(flac_header_bytes(f) + ds.flatten()) matches Ok((g, rest)) && rest == ds.flatten()
            && g.sample_rate == f.sample_rate && pcm_chunks(rest, rest.len() as int, block_align).flatten()
            == ds.flatten(),
{
    law_writes_at_end_append(flac_header_bytes(f), ds);
    law_flac_header_roundtrip(f, ds.flatten());
    law_flac_packets_join_to_frames(flac_header_bytes(f) + ds.flatten(), block_align);
}

} // verus!
