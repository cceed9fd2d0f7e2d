//! What the WAVE demuxer gives back of what the WAVE muxer writes.
use super::demuxer::{chunk_walk, fmt_header, fmt_step, info_key, wav_parse};
use super::format::{sat_mul, WavFormat};
use super::header::WavHeader;
use super::muxer::{fmt_body, fmt_chunk_size, fmt_extra, header_writable, info_id, wav_header_bytes};
use crate::io::{
    fcc, law_writes_at_end_append, le16, le16_value, le32, le32_value, lemma_le16_roundtrip, lemma_le32_roundtrip,
    lemma_splice, splice, write_in_turn,
};
use crate::media::Channels;
use vstd::prelude::*;

verus! {

/// The bytes a `WavMuxer` holds after it was made on an empty sink, was given `d` in
/// packets and was finalized without tags: the header with the `data` size set to `d`'s
/// length and the RIFF size to that length plus 36, followed by `d`.
pub open spec fn wav_file_bytes(f: WavFormat, d: Seq<u8>) -> Seq<u8> {
    let h = wav_header_bytes(f);
    splice(splice(h + d, h.len() - 4, le32(d.len() as int)), 4, le32(d.len() + 36int))
}

/// A PCM or IEEE-float format whose header the demuxer accepts.
pub open spec fn readable_pcm(f: WavFormat) -> bool {
    &&& f.format_code == 1 || f.format_code == 3
    &&& f.channels.spec_count() >= 1
    &&& f.sample_rate >= 1
    &&& f.bit_depth >= 8
    &&& f.bit_depth % 8 == 0
    &&& header_writable(f)
}

proof fn lemma_sat_mul_pos(a: int, b: int)
    requires
        a >= 1,
        b >= 1,
    ensures
        sat_mul(a, b) >= 1,
{
    assert(a * b >= 1) by (nonlinear_arith)
        requires
            a >= 1,
            b >= 1,
    ;
}

proof fn lemma_file_layout(f: WavFormat, d: Seq<u8>)
    requires
        d.len() + 36 <= u32::MAX,
    ensures
        wav_file_bytes(f, d) == fcc(0x52, 0x49, 0x46, 0x46) + le32(d.len() + 36int) + fcc(0x57, 0x41, 0x56, 0x45) + (
        fcc(0x66, 0x6d, 0x74, 0x20) + le32(fmt_chunk_size(f.format_code)) + fmt_body(f) + fmt_extra(f) + (fcc(
            0x64,
            0x61,
            0x74,
            0x61,
        ) + le32(d.len() as int) + d)),
{
    let h = wav_header_bytes(f);
    let mid = fcc(0x57, 0x41, 0x56, 0x45) + fcc(0x66, 0x6d, 0x74, 0x20) + le32(fmt_chunk_size(f.format_code))
        + fmt_body(f) + fmt_extra(f) + fcc(0x64, 0x61, 0x74, 0x61);
    let n = d.len() as int;
    assert(h =~= fcc(0x52, 0x49, 0x46, 0x46) + le32(0) + mid + le32(0));
    let s1 = splice(h + d, h.len() - 4, le32(n));
    lemma_splice(h + d, h.len() - 4, le32(n));
    assert(s1 =~= fcc(0x52, 0x49, 0x46, 0x46) + le32(0) + mid + le32(n) + d);
    lemma_splice(s1, 4, le32(n + 36));
    let target = fcc(0x52, 0x49, 0x46, 0x46) + le32(n + 36) + mid + le32(n) + d;
    assert(splice(s1, 4, le32(n + 36)) =~= target);
    assert(target =~= fcc(0x52, 0x49, 0x46, 0x46) + le32(n + 36) + fcc(0x57, 0x41, 0x56, 0x45) + (fcc(
        0x66,
        0x6d,
        0x74,
        0x20,
    ) + le32(fmt_chunk_size(f.format_code)) + fmt_body(f) + fmt_extra(f) + (fcc(0x64, 0x61, 0x74, 0x61) + le32(n)
        + d)));
}

/// The header the demuxer reads from a `fmt ` body that the muxer wrote.
pub open spec fn written_header(f: WavFormat) -> WavHeader {
    WavHeader {
        channels: Channels::spec_from_count(f.channels.spec_count()),
        sample_rate: f.sample_rate,
        byte_rate: f.spec_byte_rate() as u32,
        block_align: f.spec_block_align() as u16,
        bits_per_sample: f.bit_depth,
        format_code: f.format_code,
    }
}

proof fn lemma_fmt_body(f: WavFormat, rest: Seq<u8>)
    requires
        header_writable(f),
    ensures
        fmt_header(fmt_body(f) + rest) == written_header(f),
        fmt_body(f).len() == 16,
{
    let b = fmt_body(f) + rest;
    let c = f.channels.spec_count() as int;
    lemma_le16_roundtrip(f.format_code as int);
    lemma_le16_roundtrip(c);
    lemma_le32_roundtrip(f.sample_rate as int);
    assert(0 <= f.spec_byte_rate() <= u32::MAX);
    lemma_le32_roundtrip(f.spec_byte_rate());
    assert(0 <= f.spec_block_align()) by (nonlinear_arith)
        requires
            f.spec_block_align() == f.channels.spec_count() * (f.bit_depth / 8),
    ;
    lemma_le16_roundtrip(f.spec_block_align());
    lemma_le16_roundtrip(f.bit_depth as int);
    assert(b.take(2) =~= le16(f.format_code as int));
    assert(b.skip(2).take(2) =~= le16(c));
    assert(b.skip(4).take(4) =~= le32(f.sample_rate as int));
    assert(b.skip(8).take(4) =~= le32(f.spec_byte_rate()));
    assert(b.skip(12).take(2) =~= le16(f.spec_block_align()));
    assert(b.skip(14).take(2) =~= le16(f.bit_depth as int));
    assert(le16_value(b) == le16_value(b.take(2)));
    assert(le16_value(b.skip(2)) == le16_value(b.skip(2).take(2)));
    assert(le32_value(b.skip(4)) == le32_value(b.skip(4).take(4)));
    assert(le32_value(b.skip(8)) == le32_value(b.skip(8).take(4)));
    assert(le16_value(b.skip(12)) == le16_value(b.skip(12).take(2)));
    assert(le16_value(b.skip(14)) == le16_value(b.skip(14).take(2)));
}

proof fn lemma_walk_tail(h: WavHeader, d: Seq<u8>)
    requires
        d.len() <= u32::MAX,
    ensures
        chunk_walk(fcc(0x64, 0x61, 0x74, 0x61) + le32(d.len() as int) + d, h, seq![]) == Ok::<
            (WavHeader, Seq<(Seq<char>, Seq<char>)>, u64, Seq<u8>),
            crate::error::Error,
        >((h, seq![], d.len() as u64, d)),
{
    let n = d.len() as int;
    let tail = fcc(0x64, 0x61, 0x74, 0x61) + le32(n) + d;
    lemma_le32_roundtrip(n);
    assert(tail.take(4) =~= fcc(0x64, 0x61, 0x74, 0x61));
    assert(tail.skip(4).take(4) =~= le32(n));
    assert(le32_value(tail.skip(4)) == le32_value(tail.skip(4).take(4)));
    assert(tail.skip(8) =~= d);
    assert(tail.take(4) != fcc(0x66, 0x6d, 0x74, 0x20) && tail.take(4) != fcc(0x4c, 0x49, 0x53, 0x54)) by {
        assert(tail.take(4)[0] == 0x64);
    }
}

proof fn lemma_walk_fmt(f: WavFormat, tail: Seq<u8>)
    requires
        header_writable(f),
        f.format_code == 1 || f.format_code == 3,
    ensures
        chunk_walk(
            fcc(0x66, 0x6d, 0x74, 0x20) + le32(fmt_chunk_size(f.format_code)) + fmt_body(f) + fmt_extra(f) + tail,
            WavHeader::spec_default(),
            seq![],
        ) == chunk_walk(tail, written_header(f), seq![]),
{
    let body = fmt_body(f);
    let extra = fmt_extra(f);
    let fsz = fmt_chunk_size(f.format_code);
    let s = fcc(0x66, 0x6d, 0x74, 0x20) + le32(fsz) + body + extra + tail;
    lemma_le32_roundtrip(fsz);
    lemma_fmt_body(f, extra + tail);
    assert(s.take(4) =~= fcc(0x66, 0x6d, 0x74, 0x20));
    assert(s.skip(4).take(4) =~= le32(fsz));
    assert(le32_value(s.skip(4)) == le32_value(s.skip(4).take(4)));
    let b = s.skip(8);
    assert(b =~= body + (extra + tail));
    assert(extra.len() == fsz - 16);
    assert(b.skip(fsz) =~= tail);
    assert(fmt_step(b, fsz) == Ok::<(WavHeader, Seq<u8>), crate::error::Error>((written_header(f), tail)));
}

proof fn lemma_written_header_valid(f: WavFormat)
    requires
        readable_pcm(f),
    ensures
        written_header(f).spec_validation_error() is None,
        written_header(f).spec_to_format() == (WavFormat { channels: Channels::spec_from_count(f.channels.spec_count()), ..f }),
{
    lemma_sat_mul_pos(f.sample_rate as int, f.channels.spec_count() as int);
    lemma_sat_mul_pos(sat_mul(f.sample_rate as int, f.channels.spec_count() as int), (f.bit_depth / 8) as int);
    assert(f.spec_block_align() >= 1) by (nonlinear_arith)
        requires
            f.spec_block_align() == f.channels.spec_count() * (f.bit_depth / 8),
            f.channels.spec_count() >= 1,
            f.bit_depth >= 8,
    ;
    assert(f.spec_byte_rate() <= u32::MAX);
}

proof fn lemma_parse_riff(file: Seq<u8>, n: int, s: Seq<u8>)
    requires
        0 <= n <= u32::MAX,
        file == fcc(0x52, 0x49, 0x46, 0x46) + le32(n) + fcc(0x57, 0x41, 0x56, 0x45) + s,
    ensures
        wav_parse(file) == chunk_walk(s, WavHeader::spec_default(), seq![]),
{
    lemma_le32_roundtrip(n);
    assert(file.take(4) =~= fcc(0x52, 0x49, 0x46, 0x46));
    assert(file.skip(8).take(4) =~= fcc(0x57, 0x41, 0x56, 0x45));
    assert(file.skip(12) =~= s);
}

/// Parsing what the muxer writes for a PCM or IEEE-float format gives back the format (its
/// channel layout in the form `Channels::from_count` gives), passes validation, has no tags,
/// and leaves exactly the sample data, whose size is read from the `data` chunk.
pub proof fn law_wav_mux_then_demux(f: WavFormat, d: Seq<u8>)
    requires
        readable_pcm(f),
        d.len() + 36 <= u32::MAX,
    ensures
        wav_parse(wav_file_bytes(f, d)) matches Ok((h, tags, size, rest)) && {
            &&& h == written_header(f)
            &&& h.spec_validation_error() is None
            &&& h.spec_to_format() == (WavFormat { channels: Channels::spec_from_count(f.channels.spec_count()), ..f })
            &&& tags.len() == 0
            &&& size == d.len()
            &&& rest == d
        },
{
    let n = d.len() as int;
    let tail = fcc(0x64, 0x61, 0x74, 0x61) + le32(n) + d;
    let s = fcc(0x66, 0x6d, 0x74, 0x20) + le32(fmt_chunk_size(f.format_code)) + fmt_body(f) + fmt_extra(f) + tail;
    lemma_file_layout(f, d);
    lemma_parse_riff(wav_file_bytes(f, d), n + 36, s);
    lemma_walk_fmt(f, tail);
    lemma_walk_tail(written_header(f), d);
    lemma_written_header_valid(f);
}

/// The whole file a `WavMuxer` writes on an empty sink: its header, then each packet's data in
/// turn, then, as it finalizes without tags, the `data` size patched in at the end of the
/// header and the RIFF size at byte 4, is `wav_file_bytes` of the packets' data joined. The
/// RIFF size is the data size plus 36, which is the file's length less 8 where the `fmt ` body
/// is the plain 16 bytes (PCM); for IEEE float (18 bytes) and IMA ADPCM (20 bytes) it is 2 and
/// 4 short of that.
pub proof fn law_wav_whole_file(f: WavFormat, ds: Seq<Seq<u8>>)
    ensures
        ({
            let h = wav_header_bytes(f);
            let c = write_in_turn(h, h.len() as int, ds);
            let n = ds.flatten().len() as int;
            splice(splice(c, h.len() - 4, le32(n)), 4, le32(n + 36)) == wav_file_bytes(f, ds.flatten())
        }),
        wav_file_bytes(f, ds.flatten()).len() == wav_header_bytes(f).len() + ds.flatten().len(),
        wav_header_bytes(f).len() == 28 + fmt_chunk_size(f.format_code),
{
    let h = wav_header_bytes(f);
    law_writes_at_end_append(h, ds);
    let d = ds.flatten();
    let n = d.len() as int;
    assert(fmt_body(f).len() == 16);
    assert(fmt_extra(f).len() == fmt_chunk_size(f.format_code) - 16);
    assert(h.len() == 28 + fmt_chunk_size(f.format_code));
    lemma_splice(h + d, h.len() - 4, le32(n));
    lemma_splice(splice(h + d, h.len() - 4, le32(n)), 4, le32(n + 36));
}

/// Tag keys and INFO ids go both ways: the id the muxer writes a tag under is the one the
/// demuxer reads as that tag's key, and every id the demuxer reads as a key is the one the muxer
/// writes for it. The ids are `IART` artist, `INAM` title, `ICOM`
/// comment, `ICOP` copyright, `ISFT` software, `IGNR` genre, `ITRK` track.
pub proof fn law_wav_info_keys_round_trip(key: Seq<char>, id: Seq<u8>)
    ensures
        info_id(key) matches Some(i) ==> info_key(i) == Some(key),
        info_key(id) matches Some(k) ==> info_id(k) == Some(id),
        key == "artist"@ ==> info_id(key) == Some(seq![0x49u8, 0x41, 0x52, 0x54]),
        key == "title"@ ==> info_id(key) == Some(seq![0x49u8, 0x4e, 0x41, 0x4d]),
        key == "comment"@ ==> info_id(key) == Some(seq![0x49u8, 0x43, 0x4f, 0x4d]),
        key == "copyright"@ ==> info_id(key) == Some(seq![0x49u8, 0x43, 0x4f, 0x50]),
        key == "software"@ ==> info_id(key) == Some(seq![0x49u8, 0x53, 0x46, 0x54]),
        key == "genre"@ ==> info_id(key) == Some(seq![0x49u8, 0x47, 0x4e, 0x52]),
        key == "track"@ ==> info_id(key) == Some(seq![0x49u8, 0x54, 0x52, 0x4b]),
{
    reveal_strlit("artist");
    reveal_strlit("title");
    reveal_strlit("comment");
    reveal_strlit("copyright");
    reveal_strlit("software");
    reveal_strlit("genre");
    reveal_strlit("track");
    assert("artist"@[0] == 'a' && "title"@[0] == 't' && "comment"@[0] == 'c' && "copyright"@[0] == 'c');
    assert("software"@[0] == 's' && "genre"@[0] == 'g' && "track"@[0] == 't');
    assert("title"@[1] == 'i' && "track"@[1] == 'r');
    assert("comment"@[2] == 'm' && "copyright"@[2] == 'p');
}

} // verus!
