//! What the AVI demuxer reads back of the headers the AVI muxer writes.
use super::demuxer::{
    avi_next, chunk_stream, hdrl_chunk, strl_chunk, audio_codec, avi_parse, avi_top, fourcc_codec, fourcc_kind, hdrl_walk, strl_init, strl_walk,
    InfoModel,
};
use super::muxer::{
    audio_block_align, audio_ok, audio_strf, avi_header_bytes, avih_body, chunk_id_spec, hdrl_body, packet_chunk, strl_list, audio_strh, tracks_ok, video_strf, video_strh, AviAudioTrack,
    AviVideoTrack,
};
use crate::io::{
    fcc, law_writes_at_end_append, le16, le16_value, le32, le32_value, lemma_le16_roundtrip, lemma_le32_roundtrip,
    lemma_splice, splice, write_in_turn,
};
use crate::error::Error;
use crate::media::{first_with_id, lemma_first_with_id, Stream, StreamKind};
use vstd::prelude::*;

verus! {

/// Reading a little-endian 32-bit value where `le32(v)` was written at `i`.
proof fn lemma_le32_at(s: Seq<u8>, i: int, v: int)
    requires
        0 <= i,
        i + 4 <= s.len(),
        s.subrange(i, i + 4) == le32(v),
        0 <= v <= u32::MAX,
    ensures
        le32_value(s.skip(i)) == v,
{
    lemma_le32_roundtrip(v);
    assert(s.skip(i)[0] == le32(v)[0]);
    assert(s.skip(i)[1] == le32(v)[1]);
    assert(s.skip(i)[2] == le32(v)[2]);
    assert(s.skip(i)[3] == le32(v)[3]);
}

/// Reading a little-endian 16-bit value where `le16(v)` was written at `i`.
proof fn lemma_le16_at(s: Seq<u8>, i: int, v: int)
    requires
        0 <= i,
        i + 2 <= s.len(),
        s.subrange(i, i + 2) == le16(v),
        0 <= v <= u16::MAX,
    ensures
        le16_value(s.skip(i)) == v,
{
    lemma_le16_roundtrip(v);
    assert(s.skip(i)[0] == le16(v)[0]);
    assert(s.skip(i)[1] == le16(v)[1]);
}

/// The chunks inside a `LIST strl`: a `strh` chunk, then a `strf` chunk.
pub open spec fn strl_inner(strh: Seq<u8>, strf: Seq<u8>) -> Seq<u8> {
    fcc(0x73, 0x74, 0x72, 0x68) + le32(strh.len() as int) + strh + fcc(0x73, 0x74, 0x72, 0x66) + le32(
        strf.len() as int,
    ) + strf
}

/// What the demuxer makes of the stream list of a video track.
pub open spec fn video_model(v: AviVideoTrack) -> InfoModel {
    (StreamKind::Video, fourcc_codec(v.fourcc@), v.fps, 1u32, 0u16)
}

/// What the demuxer makes of the stream list of an audio track.
pub open spec fn audio_model(a: AviAudioTrack) -> InfoModel {
    let ba = audio_block_align(a);
    (StreamKind::Audio, audio_codec(a.format_tag), a.sample_rate, ba as u32, ba as u16)
}

proof fn lemma_fcc_differ(a: Seq<u8>, b: Seq<u8>)
    requires
        a.len() == 4,
        b.len() == 4,
        a[0] != b[0] || a[1] != b[1] || a[2] != b[2] || a[3] != b[3],
    ensures
        a != b,
{
}

/// One chunk of a stream list read and the walk goes on after it.
proof fn lemma_strl_step(id: Seq<u8>, body: Seq<u8>, tail: Seq<u8>, remaining: int, st: InfoModel, st2: InfoModel)
    requires
        id.len() == 4,
        body.len() <= u32::MAX,
        remaining >= 8 + body.len(),
        strl_chunk(id, body.len() as int, body + tail, st) == Ok::<(InfoModel, Seq<u8>), Error>((st2, tail)),
    ensures
        strl_walk(id + le32(body.len() as int) + body + tail, remaining, st) == strl_walk(
            tail,
            remaining - 8 - body.len(),
            st2,
        ),
{
    let s = id + le32(body.len() as int) + body + tail;
    assert(s.take(4) =~= id);
    assert(s.subrange(4, 8) =~= le32(body.len() as int));
    lemma_le32_at(s, 4, body.len() as int);
    assert(s.skip(8) =~= body + tail);
}

#[verifier::rlimit(50)]
proof fn lemma_video_strh(v: AviVideoTrack, tail: Seq<u8>)
    ensures
        strl_chunk(fcc(0x73, 0x74, 0x72, 0x68), 56, video_strh(v) + tail, strl_init()) == Ok::<
            (InfoModel, Seq<u8>),
            Error,
        >(((StreamKind::Video, fourcc_codec(v.fourcc@), v.fps, 1u32, 0u16), tail)),
{
    reveal(strl_chunk);
    let b = video_strh(v) + tail;
    assert(video_strh(v).len() == 56);
    assert(b.take(4) =~= fcc(0x76, 0x69, 0x64, 0x73));
    lemma_fcc_differ(fcc(0x76, 0x69, 0x64, 0x73), fcc(0x61, 0x75, 0x64, 0x73));
    lemma_fcc_differ(fcc(0x76, 0x69, 0x64, 0x73), fcc(0x74, 0x78, 0x74, 0x73));
    assert(b.skip(4).take(4) =~= v.fourcc@);
    assert(b.subrange(20, 24) =~= le32(1));
    lemma_le32_at(b, 20, 1);
    assert(b.subrange(24, 28) =~= le32(v.fps as int));
    lemma_le32_at(b, 24, v.fps as int);
    assert(b.skip(56) =~= tail);
}

#[verifier::rlimit(50)]
proof fn lemma_video_strf(v: AviVideoTrack, tail: Seq<u8>, st: InfoModel)
    requires
        st.0 == StreamKind::Video,
    ensures
        strl_chunk(fcc(0x73, 0x74, 0x72, 0x66), 40, video_strf(v) + tail, st) == Ok::<(InfoModel, Seq<u8>), Error>(
            ((st.0, fourcc_codec(v.fourcc@), st.2, st.3, st.4), tail),
        ),
{
    reveal(strl_chunk);
    let b = video_strf(v) + tail;
    assert(video_strf(v).len() == 40);
    lemma_fcc_differ(fcc(0x73, 0x74, 0x72, 0x66), fcc(0x73, 0x74, 0x72, 0x68));
    assert(b.skip(16).take(4) =~= v.fourcc@);
    assert(b.skip(40) =~= tail);
}

/// A stream list of a `strh` and a `strf` chunk is read as the two chunks are.
proof fn lemma_strl_pair(h: Seq<u8>, f: Seq<u8>, rest: Seq<u8>, st0: InfoModel, st1: InfoModel, st2: InfoModel)
    requires
        h.len() <= 0xffff,
        f.len() <= 0xffff,
        strl_chunk(
            fcc(0x73, 0x74, 0x72, 0x68),
            h.len() as int,
            h + (fcc(0x73, 0x74, 0x72, 0x66) + le32(f.len() as int) + f + rest),
            st0,
        ) == Ok::<(InfoModel, Seq<u8>), Error>((st1, fcc(0x73, 0x74, 0x72, 0x66) + le32(f.len() as int) + f + rest)),
        strl_chunk(fcc(0x73, 0x74, 0x72, 0x66), f.len() as int, f + rest, st1) == Ok::<
            (InfoModel, Seq<u8>),
            Error,
        >((st2, rest)),
    ensures
        strl_walk(strl_inner(h, f) + rest, strl_inner(h, f).len() as int, st0) == Some(
            Ok::<(InfoModel, Seq<u8>), Error>((st2, rest)),
        ),
{
    let t1 = fcc(0x73, 0x74, 0x72, 0x66) + le32(f.len() as int) + f + rest;
    let n = strl_inner(h, f).len() as int;
    assert(n == 16 + h.len() + f.len());
    assert(strl_inner(h, f) + rest =~= fcc(0x73, 0x74, 0x72, 0x68) + le32(h.len() as int) + h + t1);
    lemma_strl_step(fcc(0x73, 0x74, 0x72, 0x68), h, t1, n, st0, st1);
    lemma_strl_step(fcc(0x73, 0x74, 0x72, 0x66), f, rest, n - 8 - h.len(), st1, st2);
    assert(rest.skip(0) =~= rest);
}

proof fn lemma_video_strl(v: AviVideoTrack, rest: Seq<u8>)
    ensures
        strl_walk(
            strl_inner(video_strh(v), video_strf(v)) + rest,
            strl_inner(video_strh(v), video_strf(v)).len() as int,
            strl_init(),
        ) == Some(Ok::<(InfoModel, Seq<u8>), Error>((video_model(v), rest))),
{
    let h = video_strh(v);
    let f = video_strf(v);
    assert(h.len() == 56);
    assert(f.len() == 40);
    let t1 = fcc(0x73, 0x74, 0x72, 0x66) + le32(40) + f + rest;
    lemma_video_strh(v, t1);
    let st1 = (StreamKind::Video, fourcc_codec(v.fourcc@), v.fps, 1u32, 0u16);
    lemma_video_strf(v, rest, st1);
    lemma_strl_pair(h, f, rest, strl_init(), st1, video_model(v));
}

#[verifier::rlimit(50)]
proof fn lemma_audio_strh(a: AviAudioTrack, tail: Seq<u8>)
    requires
        audio_ok(a),
    ensures
        strl_chunk(fcc(0x73, 0x74, 0x72, 0x68), 56, audio_strh(a) + tail, strl_init()) == Ok::<
            (InfoModel, Seq<u8>),
            Error,
        >(
            (
                (
                    StreamKind::Audio,
                    Seq::empty(),
                    (a.sample_rate * audio_block_align(a)) as u32,
                    audio_block_align(a) as u32,
                    0u16,
                ),
                tail,
            ),
        ),
{
    reveal(strl_chunk);
    let ba = audio_block_align(a);
    assert(0 <= ba) by (nonlinear_arith)
        requires
            ba == a.channels * (a.bit_depth / 8),
    ;
    assert(0 <= a.sample_rate * ba) by (nonlinear_arith)
        requires
            0 <= ba,
    ;
    let b = audio_strh(a) + tail;
    assert(audio_strh(a).len() == 56);
    assert(b.take(4) =~= fcc(0x61, 0x75, 0x64, 0x73));
    lemma_fcc_differ(fcc(0x61, 0x75, 0x64, 0x73), fcc(0x76, 0x69, 0x64, 0x73));
    assert(b.subrange(20, 24) =~= le32(ba));
    lemma_le32_at(b, 20, ba);
    assert(b.subrange(24, 28) =~= le32(a.sample_rate * ba));
    lemma_le32_at(b, 24, a.sample_rate * ba);
    assert(b.skip(56) =~= tail);
}

#[verifier::rlimit(50)]
proof fn lemma_audio_strf(a: AviAudioTrack, tail: Seq<u8>, st: InfoModel)
    requires
        audio_ok(a),
        st.0 == StreamKind::Audio,
    ensures
        strl_chunk(fcc(0x73, 0x74, 0x72, 0x66), 18, audio_strf(a) + tail, st) == Ok::<(InfoModel, Seq<u8>), Error>(
            (audio_model(a), tail),
        ),
{
    reveal(strl_chunk);
    let ba = audio_block_align(a);
    assert(0 <= ba) by (nonlinear_arith)
        requires
            ba == a.channels * (a.bit_depth / 8),
    ;
    let b = audio_strf(a) + tail;
    assert(audio_strf(a).len() == 18);
    lemma_fcc_differ(fcc(0x73, 0x74, 0x72, 0x66), fcc(0x73, 0x74, 0x72, 0x68));
    assert(b.subrange(0, 2) =~= le16(a.format_tag as int));
    lemma_le16_at(b, 0, a.format_tag as int);
    assert(b.skip(0) =~= b);
    assert(b.subrange(4, 8) =~= le32(a.sample_rate as int));
    lemma_le32_at(b, 4, a.sample_rate as int);
    assert(b.subrange(12, 14) =~= le16(ba));
    lemma_le16_at(b, 12, ba);
    assert(b.skip(18) =~= tail);
}

#[verifier::rlimit(50)]
proof fn lemma_audio_strl(a: AviAudioTrack, rest: Seq<u8>)
    requires
        audio_ok(a),
    ensures
        strl_walk(
            strl_inner(audio_strh(a), audio_strf(a)) + rest,
            strl_inner(audio_strh(a), audio_strf(a)).len() as int,
            strl_init(),
        ) == Some(Ok::<(InfoModel, Seq<u8>), Error>((audio_model(a), rest))),
{
    let h = audio_strh(a);
    let f = audio_strf(a);
    assert(h.len() == 56);
    assert(f.len() == 18);
    let t1 = fcc(0x73, 0x74, 0x72, 0x66) + le32(18) + f + rest;
    lemma_audio_strh(a, t1);
    let ba = audio_block_align(a);
    let st1 = (StreamKind::Audio, Seq::<char>::empty(), (a.sample_rate * ba) as u32, ba as u32, 0u16);
    lemma_audio_strf(a, rest, st1);
    lemma_strl_pair(h, f, rest, strl_init(), st1, audio_model(a));
}

/// One chunk of the `hdrl` list read and the walk goes on after it.
proof fn lemma_hdrl_step(
    id: Seq<u8>,
    body: Seq<u8>,
    tail: Seq<u8>,
    remaining: int,
    infos: Seq<InfoModel>,
    infos2: Seq<InfoModel>,
)
    requires
        id.len() == 4,
        body.len() <= u32::MAX,
        remaining >= 8 + body.len(),
        hdrl_chunk(id, body.len() as int, body + tail, remaining - 8, infos) == Some(
            Ok::<(Seq<InfoModel>, Seq<u8>), Error>((infos2, tail)),
        ),
    ensures
        hdrl_walk(id + le32(body.len() as int) + body + tail, remaining, infos) == hdrl_walk(
            tail,
            remaining - 8 - body.len(),
            infos2,
        ),
{
    let s = id + le32(body.len() as int) + body + tail;
    assert(s.take(4) =~= id);
    assert(s.subrange(4, 8) =~= le32(body.len() as int));
    lemma_le32_at(s, 4, body.len() as int);
    assert(s.skip(8) =~= body + tail);
}

/// The main header chunk is skipped.
proof fn lemma_avih_chunk(body: Seq<u8>, tail: Seq<u8>, remaining: int, infos: Seq<InfoModel>)
    requires
        body.len() == 56,
        remaining >= 56,
    ensures
        hdrl_chunk(fcc(0x61, 0x76, 0x69, 0x68), 56, body + tail, remaining, infos) == Some(
            Ok::<(Seq<InfoModel>, Seq<u8>), Error>((infos, tail)),
        ),
{
    reveal(hdrl_chunk);
    lemma_fcc_differ(fcc(0x61, 0x76, 0x69, 0x68), fcc(0x4c, 0x49, 0x53, 0x54));
    assert((body + tail).skip(56) =~= tail);
}

/// A stream list is read as its chunks are, and adds what it says to the lists read.
proof fn lemma_strl_list_chunk(
    h: Seq<u8>,
    f: Seq<u8>,
    m: InfoModel,
    rest: Seq<u8>,
    remaining: int,
    infos: Seq<InfoModel>,
)
    requires
        strl_walk(strl_inner(h, f) + rest, strl_inner(h, f).len() as int, strl_init()) == Some(
            Ok::<(InfoModel, Seq<u8>), Error>((m, rest)),
        ),
        remaining >= strl_inner(h, f).len() + 4,
    ensures
        hdrl_chunk(
            fcc(0x4c, 0x49, 0x53, 0x54),
            strl_inner(h, f).len() + 4int,
            fcc(0x73, 0x74, 0x72, 0x6c) + strl_inner(h, f) + rest,
            remaining,
            infos,
        ) == Some(Ok::<(Seq<InfoModel>, Seq<u8>), Error>((infos.push(m), rest))),
{
    reveal(hdrl_chunk);
    let b = fcc(0x73, 0x74, 0x72, 0x6c) + strl_inner(h, f) + rest;
    assert(b.take(4) =~= fcc(0x73, 0x74, 0x72, 0x6c));
    assert(b.skip(4) =~= strl_inner(h, f) + rest);
}

/// A whole `LIST strl` chunk read as part of the `hdrl` list.
proof fn lemma_list_step(
    h: Seq<u8>,
    f: Seq<u8>,
    m: InfoModel,
    tail: Seq<u8>,
    remaining: int,
    infos: Seq<InfoModel>,
)
    requires
        h.len() <= 0xffff,
        f.len() <= 0xffff,
        strl_walk(strl_inner(h, f) + tail, strl_inner(h, f).len() as int, strl_init()) == Some(
            Ok::<(InfoModel, Seq<u8>), Error>((m, tail)),
        ),
        remaining >= 12 + strl_inner(h, f).len(),
    ensures
        hdrl_walk(strl_list(h, f) + tail, remaining, infos) == hdrl_walk(
            tail,
            remaining - 12 - strl_inner(h, f).len(),
            infos.push(m),
        ),
{
    let inner = strl_inner(h, f);
    let body = fcc(0x73, 0x74, 0x72, 0x6c) + inner;
    assert(strl_list(h, f) + tail =~= fcc(0x4c, 0x49, 0x53, 0x54) + le32(body.len() as int) + body + tail);
    lemma_strl_list_chunk(h, f, m, tail, remaining - 8, infos);
    assert(body + tail =~= fcc(0x73, 0x74, 0x72, 0x6c) + inner + tail);
    lemma_hdrl_step(fcc(0x4c, 0x49, 0x53, 0x54), body, tail, remaining, infos, infos.push(m));
}

/// The stream list of a video track, if there is one.
#[verifier::opaque]
pub open spec fn video_list(v: Option<AviVideoTrack>) -> Seq<u8> {
    match v {
        Some(v) => strl_list(video_strh(v), video_strf(v)),
        None => Seq::empty(),
    }
}

/// The stream list of an audio track, if there is one.
#[verifier::opaque]
pub open spec fn audio_list(a: Option<AviAudioTrack>) -> Seq<u8> {
    match a {
        Some(a) => strl_list(audio_strh(a), audio_strf(a)),
        None => Seq::empty(),
    }
}

/// What the demuxer makes of the stream lists of the tracks: the video track's first.
pub open spec fn written_infos(v: Option<AviVideoTrack>, a: Option<AviAudioTrack>) -> Seq<InfoModel> {
    (match v {
        Some(v) => seq![video_model(v)],
        None => Seq::empty(),
    }) + (match a {
        Some(a) => seq![audio_model(a)],
        None => Seq::empty(),
    })
}

/// The body of an `hdrl` list as the muxer lays it out, with the main header's body `avih`.
pub open spec fn hdrl_body_with(v: Option<AviVideoTrack>, a: Option<AviAudioTrack>, avih: Seq<u8>) -> Seq<u8> {
    fcc(0x61, 0x76, 0x69, 0x68) + le32(56) + avih + video_list(v) + audio_list(a)
}

proof fn lemma_video_list(v: Option<AviVideoTrack>, tail: Seq<u8>, remaining: int, infos: Seq<InfoModel>)
    requires
        remaining >= video_list(v).len(),
    ensures
        hdrl_walk(video_list(v) + tail, remaining, infos) == hdrl_walk(
            tail,
            remaining - video_list(v).len(),
            infos + (match v {
                Some(v) => seq![video_model(v)],
                None => Seq::empty(),
            }),
        ),
{
    reveal(video_list);
    match v {
        Some(x) => {
            let h = video_strh(x);
            let f = video_strf(x);
            assert(h.len() == 56 && f.len() == 40);
            lemma_video_strl(x, tail);
            lemma_list_step(h, f, video_model(x), tail, remaining, infos);
            assert(infos.push(video_model(x)) =~= infos + seq![video_model(x)]);
        },
        None => {
            assert(video_list(v) + tail =~= tail);
            assert(infos + Seq::<InfoModel>::empty() =~= infos);
        },
    }
}

#[verifier::rlimit(60)]
proof fn lemma_audio_list(a: Option<AviAudioTrack>, tail: Seq<u8>, remaining: int, infos: Seq<InfoModel>)
    requires
        remaining >= audio_list(a).len(),
        a matches Some(x) ==> audio_ok(x),
    ensures
        hdrl_walk(audio_list(a) + tail, remaining, infos) == hdrl_walk(
            tail,
            remaining - audio_list(a).len(),
            infos + (match a {
                Some(a) => seq![audio_model(a)],
                None => Seq::empty(),
            }),
        ),
{
    reveal(audio_list);
    match a {
        Some(x) => {
            let h = audio_strh(x);
            let f = audio_strf(x);
            assert(h.len() == 56 && f.len() == 18);
            lemma_audio_strl(x, tail);
            lemma_list_step(h, f, audio_model(x), tail, remaining, infos);
            assert(infos.push(audio_model(x)) =~= infos + seq![audio_model(x)]);
        },
        None => {
            assert(audio_list(a) + tail =~= tail);
            assert(infos + Seq::<InfoModel>::empty() =~= infos);
        },
    }
}

proof fn lemma_hdrl_body(v: Option<AviVideoTrack>, a: Option<AviAudioTrack>, avih: Seq<u8>, rest: Seq<u8>)
    requires
        tracks_ok(v, a),
        avih.len() == 56,
    ensures
        hdrl_walk(hdrl_body_with(v, a, avih) + rest, hdrl_body_with(v, a, avih).len() as int, seq![]) == Some(
            Ok::<(Seq<InfoModel>, Seq<u8>), Error>((written_infos(v, a), rest)),
        ),
{
    let lv = video_list(v);
    let la = audio_list(a);
    let n = hdrl_body_with(v, a, avih).len() as int;
    assert(n == 64 + lv.len() + la.len());
    let t1 = lv + (la + rest);
    assert(hdrl_body_with(v, a, avih) + rest =~= fcc(0x61, 0x76, 0x69, 0x68) + le32(56) + avih + t1);
    lemma_avih_chunk(avih, t1, n - 8, seq![]);
    lemma_hdrl_step(fcc(0x61, 0x76, 0x69, 0x68), avih, t1, n, seq![], seq![]);
    lemma_video_list(v, la + rest, n - 64, seq![]);
    let i1 = Seq::<InfoModel>::empty() + (match v {
        Some(v) => seq![video_model(v)],
        None => Seq::empty(),
    });
    lemma_audio_list(a, rest, n - 64 - lv.len(), i1);
    assert(i1 + (match a {
        Some(a) => seq![audio_model(a)],
        None => Seq::empty(),
    }) =~= written_infos(v, a));
    assert(rest.skip(0) =~= rest);
}

/// The first bytes of an AVI file as the muxer lays them out: the RIFF header with size
/// `riff_size`, the `hdrl` list whose main header body is `avih`, and the opening of the
/// `movi` list with size `movi_size`.
pub open spec fn avi_file_head(
    v: Option<AviVideoTrack>,
    a: Option<AviAudioTrack>,
    riff_size: u32,
    avih: Seq<u8>,
    movi_size: u32,
) -> Seq<u8> {
    let hb = hdrl_body_with(v, a, avih);
    fcc(0x52, 0x49, 0x46, 0x46) + le32(riff_size as int) + fcc(0x41, 0x56, 0x49, 0x20) + (fcc(0x4c, 0x49, 0x53, 0x54)
        + le32(hb.len() + 4int) + fcc(0x68, 0x64, 0x72, 0x6c) + hb) + (fcc(0x4c, 0x49, 0x53, 0x54) + le32(
        movi_size as int,
    ) + fcc(0x6d, 0x6f, 0x76, 0x69))
}

proof fn lemma_hdrl_len(v: Option<AviVideoTrack>, a: Option<AviAudioTrack>, avih: Seq<u8>)
    requires
        avih.len() == 56,
    ensures
        hdrl_body_with(v, a, avih).len() <= 300,
{
    reveal(video_list);
    reveal(audio_list);
    match v {
        Some(x) => {
            assert(video_strh(x).len() == 56 && video_strf(x).len() == 40);
        },
        None => {},
    }
    match a {
        Some(x) => {
            assert(audio_strh(x).len() == 56 && audio_strf(x).len() == 18);
        },
        None => {},
    }
}

proof fn lemma_movi_top(infos: Seq<InfoModel>, movi_size: u32, rest: Seq<u8>)
    requires
        movi_size >= 4,
    ensures
        avi_top(fcc(0x4c, 0x49, 0x53, 0x54) + le32(movi_size as int) + fcc(0x6d, 0x6f, 0x76, 0x69) + rest, infos)
            == Some(Ok::<(Seq<InfoModel>, u64, Seq<u8>), Error>((infos, (movi_size - 4) as u64, rest))),
{
    let t = fcc(0x4c, 0x49, 0x53, 0x54) + le32(movi_size as int) + fcc(0x6d, 0x6f, 0x76, 0x69) + rest;
    assert(t.take(4) =~= fcc(0x4c, 0x49, 0x53, 0x54));
    assert(t.subrange(4, 8) =~= le32(movi_size as int));
    lemma_le32_at(t, 4, movi_size as int);
    let b = t.skip(8);
    assert(b.take(4) =~= fcc(0x6d, 0x6f, 0x76, 0x69));
    lemma_fcc_differ(fcc(0x6d, 0x6f, 0x76, 0x69), fcc(0x68, 0x64, 0x72, 0x6c));
    assert(b.skip(4) =~= rest);
}

proof fn lemma_hdrl_top(hb: Seq<u8>, movi: Seq<u8>, infos: Seq<InfoModel>)
    requires
        hb.len() <= 300,
        hdrl_walk(hb + movi, hb.len() as int, seq![]) == Some(Ok::<(Seq<InfoModel>, Seq<u8>), Error>((infos, movi))),
    ensures
        avi_top(fcc(0x4c, 0x49, 0x53, 0x54) + le32(hb.len() + 4int) + fcc(0x68, 0x64, 0x72, 0x6c) + hb + movi, seq![])
            == avi_top(movi, infos),
{
    let t = fcc(0x4c, 0x49, 0x53, 0x54) + le32(hb.len() + 4int) + fcc(0x68, 0x64, 0x72, 0x6c) + hb + movi;
    assert(t.take(4) =~= fcc(0x4c, 0x49, 0x53, 0x54));
    assert(t.subrange(4, 8) =~= le32(hb.len() + 4int));
    lemma_le32_at(t, 4, hb.len() + 4int);
    let b = t.skip(8);
    assert(b.take(4) =~= fcc(0x68, 0x64, 0x72, 0x6c));
    assert(b.skip(4) =~= hb + movi);
}

/// The headers an `AviMuxer` writes are read back by `AviDemuxer` as the stream lists of its
/// tracks, the video track's first, each with the kind, codec name, rate, scale and block
/// alignment the demuxer takes from it; whatever the RIFF size and the main header's body
/// hold, wherever the `movi` size covers at least its own list type, and whatever follows.
#[verifier::rlimit(60)]
pub proof fn law_avi_headers_read_back(
    v: Option<AviVideoTrack>,
    a: Option<AviAudioTrack>,
    riff_size: u32,
    avih: Seq<u8>,
    movi_size: u32,
    rest: Seq<u8>,
)
    requires
        tracks_ok(v, a),
        avih.len() == 56,
        movi_size >= 4,
    ensures
        avi_parse(avi_file_head(v, a, riff_size, avih, movi_size) + rest) == Some(
            Ok::<(Seq<InfoModel>, u64, Seq<u8>), Error>((written_infos(v, a), (movi_size - 4) as u64, rest)),
        ),
{
    let hb = hdrl_body_with(v, a, avih);
    lemma_hdrl_len(v, a, avih);
    let movi = fcc(0x4c, 0x49, 0x53, 0x54) + le32(movi_size as int) + fcc(0x6d, 0x6f, 0x76, 0x69) + rest;
    let s = avi_file_head(v, a, riff_size, avih, movi_size) + rest;
    assert(s.take(4) =~= fcc(0x52, 0x49, 0x46, 0x46));
    assert(s.skip(8).take(4) =~= fcc(0x41, 0x56, 0x49, 0x20));
    let t = s.skip(12);
    assert(t =~= fcc(0x4c, 0x49, 0x53, 0x54) + le32(hb.len() + 4int) + fcc(0x68, 0x64, 0x72, 0x6c) + hb + movi);
    lemma_hdrl_body(v, a, avih, movi);
    lemma_hdrl_top(hb, movi, written_infos(v, a));
    lemma_movi_top(written_infos(v, a), movi_size, rest);
}

/// A packet chunk the muxer writes for a stream the demuxer knows is read back as that
/// stream's packet with the same bytes, the pad byte after odd data skipped, wherever the
/// `movi` data left covers the chunk.
pub proof fn law_avi_chunk_read_back(id: Seq<u8>, data: Seq<u8>, rest: Seq<u8>, dr: int, n: int, sid: u32)
    requires
        id.len() == 4,
        data.len() <= u32::MAX,
        chunk_stream(id, n) == Some(sid),
        dr >= packet_chunk(id, data).len(),
    ensures
        avi_next(packet_chunk(id, data) + rest, dr, n) == Some(
            Ok::<(Option<(u32, Seq<u8>)>, Seq<u8>, int), Error>(
                (Some((sid, data)), rest, dr - packet_chunk(id, data).len()),
            ),
        ),
{
    let k = data.len() as int;
    let pad = if k % 2 == 1 { seq![0u8] } else { Seq::<u8>::empty() };
    assert(((k as u32) as int) == k);
    let s = packet_chunk(id, data) + rest;
    assert(s =~= id + le32(k) + data + (pad + rest));
    assert(s.take(4) =~= id);
    assert(s.subrange(4, 8) =~= le32(k));
    lemma_le32_at(s, 4, k);
    let b = s.skip(8);
    assert(b =~= data + (pad + rest));
    assert(b.take(k) =~= data);
    assert(b.skip(k) =~= pad + rest);
    if k % 2 == 1 {
        assert((pad + rest).skip(1) =~= rest);
    }
}

/// The chunk id the muxer gives a packet of stream `id` names that stream's position, for the
/// first hundred streams, to a demuxer that knows more streams than that position.
pub proof fn law_avi_chunk_id_names_stream(items: Seq<Stream>, id: u32, n: int)
    requires
        first_with_id(items, id) matches Some(i) && items[i].index < 100 && items[i].index < n,
    ensures
        chunk_stream(chunk_id_spec(items, id), n) == Some(items[first_with_id(items, id)->0].index as u32),
{
    lemma_first_with_id(items, id);
    let i = first_with_id(items, id)->0;
    let idx = items[i].index as int;
    let c = chunk_id_spec(items, id);
    assert(c[0] == (48 + idx / 10) as u8 && c[1] == (48 + idx % 10) as u8);
    assert((idx / 10) * 10 + idx % 10 == idx);
}

/// The header a new `AviMuxer` writes is the head the laws above read, with both sizes zero
/// and the main header it computes; `finalize` patches the two sizes and a field of the main
/// header in place.
pub proof fn lemma_header_is_file_head(v: Option<AviVideoTrack>, a: Option<AviAudioTrack>)
    ensures
        avi_header_bytes(v, a) == avi_file_head(v, a, 0, avih_body(v, a), 0),
        avih_body(v, a).len() == 56,
{
    reveal(video_list);
    reveal(audio_list);
    assert(hdrl_body(v, a) =~= hdrl_body_with(v, a, avih_body(v, a)));
    assert(avi_header_bytes(v, a) =~= avi_file_head(v, a, 0, avih_body(v, a), 0));
}

proof fn lemma_splice_field(x: Seq<u8>, f: Seq<u8>, y: Seq<u8>, g: Seq<u8>)
    requires
        f.len() == g.len(),
    ensures
        splice(x + f + y, x.len() as int, g) == x + g + y,
{
    assert(splice(x + f + y, x.len() as int, g) =~= x + g + y);
}

proof fn lemma_splice_inside(x: Seq<u8>, mid: Seq<u8>, y: Seq<u8>, off: int, g: Seq<u8>)
    requires
        0 <= off,
        off + g.len() <= mid.len(),
    ensures
        splice(x + mid + y, x.len() + off, g) == x + splice(mid, off, g) + y,
{
    assert(splice(x + mid + y, x.len() + off, g) =~= x + splice(mid, off, g) + y);
}

proof fn lemma_file_head_len(v: Option<AviVideoTrack>, a: Option<AviAudioTrack>, r: u32, av: Seq<u8>, m: u32)
    requires
        av.len() == 56,
    ensures
        avi_file_head(v, a, r, av, m).len() == 36 + hdrl_body_with(v, a, av).len(),
        hdrl_body_with(v, a, av).len() == 64 + video_list(v).len() + audio_list(a).len(),
{
}

proof fn lemma_patch_movi(v: Option<AviVideoTrack>, a: Option<AviAudioTrack>, r: u32, av: Seq<u8>, m0: u32, m: u32, body: Seq<u8>)
    requires
        av.len() == 56,
    ensures
        splice(avi_file_head(v, a, r, av, m0) + body, avi_file_head(v, a, r, av, m0).len() - 8, le32(m as int))
            == avi_file_head(v, a, r, av, m) + body,
{
    lemma_file_head_len(v, a, r, av, m0);
    let hb = hdrl_body_with(v, a, av);
    let x = fcc(0x52, 0x49, 0x46, 0x46) + le32(r as int) + fcc(0x41, 0x56, 0x49, 0x20) + (fcc(0x4c, 0x49, 0x53, 0x54)
        + le32(hb.len() + 4int) + fcc(0x68, 0x64, 0x72, 0x6c) + hb) + fcc(0x4c, 0x49, 0x53, 0x54);
    let y = fcc(0x6d, 0x6f, 0x76, 0x69) + body;
    assert(avi_file_head(v, a, r, av, m0) + body =~= x + le32(m0 as int) + y);
    lemma_splice_field(x, le32(m0 as int), y, le32(m as int));
    assert(x + le32(m as int) + y =~= avi_file_head(v, a, r, av, m) + body);
}

proof fn lemma_patch_riff(v: Option<AviVideoTrack>, a: Option<AviAudioTrack>, r0: u32, r: u32, av: Seq<u8>, m: u32, body: Seq<u8>)
    requires
        av.len() == 56,
    ensures
        splice(avi_file_head(v, a, r0, av, m) + body, 4, le32(r as int)) == avi_file_head(v, a, r, av, m) + body,
{
    let hb = hdrl_body_with(v, a, av);
    let x = fcc(0x52, 0x49, 0x46, 0x46);
    let y = fcc(0x41, 0x56, 0x49, 0x20) + (fcc(0x4c, 0x49, 0x53, 0x54) + le32(hb.len() + 4int) + fcc(0x68, 0x64, 0x72, 0x6c)
        + hb) + (fcc(0x4c, 0x49, 0x53, 0x54) + le32(m as int) + fcc(0x6d, 0x6f, 0x76, 0x69)) + body;
    assert(avi_file_head(v, a, r0, av, m) + body =~= x + le32(r0 as int) + y);
    lemma_splice_field(x, le32(r0 as int), y, le32(r as int));
    assert(x + le32(r as int) + y =~= avi_file_head(v, a, r, av, m) + body);
}

proof fn lemma_patch_frames(v: Option<AviVideoTrack>, a: Option<AviAudioTrack>, r: u32, av: Seq<u8>, m: u32, body: Seq<u8>, f: u32)
    requires
        av.len() == 56,
    ensures
        splice(avi_file_head(v, a, r, av, m) + body, 48, le32(f as int)) == avi_file_head(
            v,
            a,
            r,
            splice(av, 16, le32(f as int)),
            m,
        ) + body,
        splice(av, 16, le32(f as int)).len() == 56,
{
    let av2 = splice(av, 16, le32(f as int));
    lemma_splice(av, 16, le32(f as int));
    let lists = video_list(v) + audio_list(a);
    let hb = hdrl_body_with(v, a, av);
    let hb2 = hdrl_body_with(v, a, av2);
    assert(hb =~= fcc(0x61, 0x76, 0x69, 0x68) + le32(56) + av + lists);
    assert(hb2 =~= fcc(0x61, 0x76, 0x69, 0x68) + le32(56) + av2 + lists);
    let x = fcc(0x52, 0x49, 0x46, 0x46) + le32(r as int) + fcc(0x41, 0x56, 0x49, 0x20) + fcc(0x4c, 0x49, 0x53, 0x54)
        + le32(hb.len() + 4int) + fcc(0x68, 0x64, 0x72, 0x6c) + fcc(0x61, 0x76, 0x69, 0x68) + le32(56);
    let y = lists + (fcc(0x4c, 0x49, 0x53, 0x54) + le32(m as int) + fcc(0x6d, 0x6f, 0x76, 0x69)) + body;
    assert(x.len() == 32);
    assert(avi_file_head(v, a, r, av, m) + body =~= x + av + y);
    lemma_splice_inside(x, av, y, 16, le32(f as int));
    assert(x + av2 + y =~= avi_file_head(v, a, r, av2, m) + body);
}

/// A file an `AviMuxer` writes on an empty sink — its header, then packet chunks and an index
/// making `body`, then the sizes and the frame count `finalize` patches in — is read back by
/// `AviDemuxer` as the stream lists of its tracks, with `movi` data of exactly the `total`
/// bytes of packet chunks, starting at `body`.
pub proof fn law_avi_mux_then_demux_headers(
    v: Option<AviVideoTrack>,
    a: Option<AviAudioTrack>,
    body: Seq<u8>,
    total: u32,
    riff_size: u32,
    frames: u32,
)
    requires
        tracks_ok(v, a),
        4 + total <= u32::MAX,
    ensures
        ({
            let h = avi_header_bytes(v, a);
            let c2 = splice(h + body, h.len() - 8, le32(4 + total));
            let c3 = splice(c2, 4, le32(riff_size as int));
            let c4 = splice(c3, 48, le32(frames as int));
            avi_parse(c4) == Some(Ok::<(Seq<InfoModel>, u64, Seq<u8>), Error>((written_infos(v, a), total as u64, body)))
        }),
{
    lemma_header_is_file_head(v, a);
    let av = avih_body(v, a);
    let m = (4 + total) as u32;
    lemma_patch_movi(v, a, 0, av, 0, m, body);
    lemma_patch_riff(v, a, 0, riff_size, av, m, body);
    lemma_patch_frames(v, a, riff_size, av, m, body, frames);
    law_avi_headers_read_back(v, a, riff_size, splice(av, 16, le32(frames as int)), m, body);
}

/// In the file an `AviMuxer` writes on an empty sink and finalizes, the main header's
/// `dwTotalFrames` (bytes 48 to 51) holds the frame count that `finalize` patches in — the
/// number of video packets written — and `dwStreams` (bytes 56 to 59) still holds the number of
/// tracks.
pub proof fn law_avi_frame_count(
    v: Option<AviVideoTrack>,
    a: Option<AviAudioTrack>,
    body: Seq<u8>,
    total: u32,
    riff_size: u32,
    frames: u32,
)
    requires
        tracks_ok(v, a),
        4 + total <= u32::MAX,
    ensures
        ({
            let h = avi_header_bytes(v, a);
            let c2 = splice(h + body, h.len() - 8, le32(4 + total));
            let c3 = splice(c2, 4, le32(riff_size as int));
            let c4 = splice(c3, 48, le32(frames as int));
            &&& c4.subrange(48, 52) == le32(frames as int)
            &&& c4.subrange(56, 60) == le32((if v is Some { 1int } else { 0 }) + (if a is Some { 1int } else { 0 }))
        }),
{
    lemma_header_is_file_head(v, a);
    let av = avih_body(v, a);
    let m = (4 + total) as u32;
    lemma_patch_movi(v, a, 0, av, 0, m, body);
    lemma_patch_riff(v, a, 0, riff_size, av, m, body);
    lemma_patch_frames(v, a, riff_size, av, m, body, frames);
    let av2 = splice(av, 16, le32(frames as int));
    lemma_avih_fields(v, a, frames);
    lemma_head_holds_avih(v, a, riff_size, av2, m, body, 16, 20);
    lemma_head_holds_avih(v, a, riff_size, av2, m, body, 24, 28);
}

/// The main header sits at bytes 32 to 87 of the file head.
proof fn lemma_head_holds_avih(
    v: Option<AviVideoTrack>,
    a: Option<AviAudioTrack>,
    r: u32,
    av: Seq<u8>,
    m: u32,
    body: Seq<u8>,
    i: int,
    j: int,
)
    requires
        av.len() == 56,
        0 <= i <= j <= 56,
    ensures
        (avi_file_head(v, a, r, av, m) + body).subrange(32 + i, 32 + j) == av.subrange(i, j),
{
    let hb = hdrl_body_with(v, a, av);
    let x = fcc(0x52, 0x49, 0x46, 0x46) + le32(r as int) + fcc(0x41, 0x56, 0x49, 0x20) + fcc(0x4c, 0x49, 0x53, 0x54)
        + le32(hb.len() + 4int) + fcc(0x68, 0x64, 0x72, 0x6c) + fcc(0x61, 0x76, 0x69, 0x68) + le32(56);
    let y = video_list(v) + audio_list(a) + (fcc(0x4c, 0x49, 0x53, 0x54) + le32(m as int) + fcc(0x6d, 0x6f, 0x76, 0x69))
        + body;
    assert(hb =~= fcc(0x61, 0x76, 0x69, 0x68) + le32(56) + av + video_list(v) + audio_list(a));
    assert(avi_file_head(v, a, r, av, m) + body =~= x + av + y);
    assert(x.len() == 32);
    assert((x + av + y).subrange(32 + i, 32 + j) =~= av.subrange(i, j));
}

/// After the frame count is patched in, the main header holds it at bytes 16 to 19 and the
/// number of tracks, untouched, at bytes 24 to 27.
proof fn lemma_avih_fields(v: Option<AviVideoTrack>, a: Option<AviAudioTrack>, f: u32)
    ensures
        splice(avih_body(v, a), 16, le32(f as int)).subrange(16, 20) == le32(f as int),
        splice(avih_body(v, a), 16, le32(f as int)).subrange(24, 28) == le32(
            (if v is Some { 1int } else { 0 }) + (if a is Some { 1int } else { 0 }),
        ),
{
    let av = avih_body(v, a);
    lemma_header_is_file_head(v, a);
    lemma_splice(av, 16, le32(f as int));
    let n: int = (if v is Some { 1int } else { 0 }) + (if a is Some { 1int } else { 0 });
    assert(av.subrange(24, 28) =~= le32(n));
    assert(splice(av, 16, le32(f as int)).subrange(24, 28) =~= av.subrange(24, 28));
}

/// The whole file an `AviMuxer` writes on an empty sink: its header, the packet chunks in the
/// order they were written, the `idx1` index appended at `finalize`, and the three fields
/// `finalize` patches: the `movi` size (four plus the chunks' bytes), the RIFF size (the file's
/// length less eight) and `dwTotalFrames`. `AviDemuxer` reads it back as the stream lists of
/// the tracks, with `movi` data of exactly the chunks, followed by the index.
pub proof fn law_avi_whole_file(
    v: Option<AviVideoTrack>,
    a: Option<AviAudioTrack>,
    chunks: Seq<Seq<u8>>,
    ix: Seq<u8>,
    frames: u32,
)
    requires
        tracks_ok(v, a),
        4 + chunks.flatten().len() <= u32::MAX,
        avi_header_bytes(v, a).len() + chunks.flatten().len() + ix.len() - 8 <= u32::MAX,
    ensures
        ({
            let h = avi_header_bytes(v, a);
            let total = chunks.flatten().len() as int;
            let c0 = write_in_turn(h, h.len() as int, chunks);
            let c1 = splice(c0, c0.len() as int, ix);
            let c2 = splice(c1, h.len() - 8, le32(4 + total));
            let c3 = splice(c2, 4, le32(c1.len() - 8));
            let c4 = splice(c3, 48, le32(frames as int));
            &&& c1 == h + chunks.flatten() + ix
            &&& c4.len() == c1.len()
            &&& c4.subrange(4, 8) == le32(c4.len() - 8)
            &&& c4.subrange(48, 52) == le32(frames as int)
            &&& avi_parse(c4) == Some(
                Ok::<(Seq<InfoModel>, u64, Seq<u8>), Error>((written_infos(v, a), total as u64, chunks.flatten() + ix)),
            )
        }),
{
    let h = avi_header_bytes(v, a);
    let d = chunks.flatten();
    let total = d.len() as int;
    lemma_whole_file_bytes(h, chunks, ix);
    let c1 = h + d + ix;
    let body = d + ix;
    assert(h + body =~= c1);
    lemma_header_is_file_head(v, a);
    lemma_file_head_len(v, a, 0, avih_body(v, a), 0);
    let r = (c1.len() - 8) as u32;
    assert(r as int == c1.len() - 8);
    law_avi_mux_then_demux_headers(v, a, body, total as u32, r, frames);
    law_avi_frame_count(v, a, body, total as u32, r, frames);
    lemma_patched_len(c1, h.len() - 8, 4 + total, c1.len() - 8, frames);
}

/// Appending the chunks and then the index after the header.
proof fn lemma_whole_file_bytes(h: Seq<u8>, chunks: Seq<Seq<u8>>, ix: Seq<u8>)
    ensures
        splice(
            write_in_turn(h, h.len() as int, chunks),
            write_in_turn(h, h.len() as int, chunks).len() as int,
            ix,
        ) == h + chunks.flatten() + ix,
{
    law_writes_at_end_append(h, chunks);
    let c0 = write_in_turn(h, h.len() as int, chunks);
    assert(splice(c0, c0.len() as int, ix) =~= h + chunks.flatten() + ix);
}

/// The three patches keep the length, and the RIFF size stays where it was patched.
proof fn lemma_patched_len(c1: Seq<u8>, mpos: int, m: int, r: int, f: u32)
    requires
        56 <= mpos,
        mpos + 4 <= c1.len(),
    ensures
        ({
            let c4 = splice(splice(splice(c1, mpos, le32(m)), 4, le32(r)), 48, le32(f as int));
            &&& c4.len() == c1.len()
            &&& c4.subrange(4, 8) == le32(r)
        }),
{
    let c2 = splice(c1, mpos, le32(m));
    let c3 = splice(c2, 4, le32(r));
    let c4 = splice(c3, 48, le32(f as int));
    lemma_splice(c1, mpos, le32(m));
    lemma_splice(c2, 4, le32(r));
    lemma_splice(c3, 48, le32(f as int));
    assert(c4.subrange(4, 8) =~= c3.subrange(4, 8));
}

/// The packets `AviDemuxer::read_packet` hands out one call after another from `s`, with `dr`
/// bytes of `movi` data left and `n` streams, until it gives `None` (or fails): each packet's
/// stream and bytes.
pub open spec fn avi_packets(s: Seq<u8>, dr: int, n: int) -> Seq<(u32, Seq<u8>)>
    decreases s.len(),
{
    match avi_next(s, dr, n) {
        Some(Ok((Some(x), r, dr2))) => if r.len() < s.len() {
            seq![x] + avi_packets(r, dr2, n)
        } else {
            Seq::empty()
        },
        _ => Seq::empty(),
    }
}

/// The chunks of the packets, in order: each packet's chunk under its stream's id.
pub open spec fn chunks_of(ids: Seq<Seq<u8>>, datas: Seq<Seq<u8>>) -> Seq<Seq<u8>>
    decreases ids.len(),
{
    if ids.len() == 0 || datas.len() == 0 {
        Seq::empty()
    } else {
        seq![packet_chunk(ids[0], datas[0])] + chunks_of(ids.drop_first(), datas.drop_first())
    }
}

/// The packets an AVI file holds, read back one call after another: where the `movi` data is
/// exactly the chunks the muxer wrote for packets of known streams, and what follows it (the
/// index) is left alone, the demuxer hands out those packets' bytes, in the order they were
/// written, each with the stream its chunk id names, and then stops.
pub proof fn law_avi_packets_read_back(
    ids: Seq<Seq<u8>>,
    datas: Seq<Seq<u8>>,
    sids: Seq<u32>,
    ix: Seq<u8>,
    n: int,
)
    requires
        ids.len() == datas.len() == sids.len(),
        forall|i: int| 0 <= i < ids.len() ==> (#[trigger] ids[i]).len() == 4,
        forall|i: int| 0 <= i < ids.len() ==> (#[trigger] datas[i]).len() <= u32::MAX,
        forall|i: int| 0 <= i < ids.len() ==> chunk_stream(#[trigger] ids[i], n) == Some(sids[i]),
    ensures
        avi_packets(chunks_of(ids, datas).flatten() + ix, chunks_of(ids, datas).flatten().len() as int, n)
            == Seq::new(ids.len(), |i: int| (sids[i], datas[i])),
    decreases ids.len(),
{
    let cs = chunks_of(ids, datas);
    let d = cs.flatten();
    if ids.len() == 0 {
        assert(cs =~= Seq::<Seq<u8>>::empty());
        assert(d =~= Seq::<u8>::empty());
        assert(Seq::new(ids.len(), |i: int| (sids[i], datas[i])) =~= Seq::<(u32, Seq<u8>)>::empty());
    } else {
        let c0 = packet_chunk(ids[0], datas[0]);
        let tail = chunks_of(ids.drop_first(), datas.drop_first());
        assert(cs == seq![c0] + tail);
        assert(cs.drop_first() =~= tail);
        assert(d == c0 + tail.flatten());
        assert(d + ix =~= c0 + (tail.flatten() + ix));
        law_avi_chunk_read_back(ids[0], datas[0], tail.flatten() + ix, d.len() as int, n, sids[0]);
        assert(c0.len() >= 8);
        law_avi_packets_read_back(ids.drop_first(), datas.drop_first(), sids.drop_first(), ix, n);
        assert(Seq::new(ids.len(), |i: int| (sids[i], datas[i])) =~= seq![(sids[0], datas[0])] + Seq::new(
            ids.drop_first().len(),
            |i: int| (sids.drop_first()[i], datas.drop_first()[i]),
        ));
    }
}

/// The video stream format the muxer writes is a BITMAPINFOHEADER that reads back, field by
/// field as little-endian numbers, as a header of 40 bytes (`biSize`), the track's width
/// (`biWidth`, bytes 4 to 7) and height (`biHeight`, bytes 8 to 11), one plane, 24 bits per
/// pixel, and the track's fourcc as its compression (bytes 16 to 19).
pub proof fn law_avi_video_format_read_back(v: AviVideoTrack)
    ensures
        video_strf(v).len() == 40,
        le32_value(video_strf(v).subrange(0, 4)) == 40,
        le32_value(video_strf(v).subrange(4, 8)) == v.width,
        le32_value(video_strf(v).subrange(8, 12)) == v.height,
        le16_value(video_strf(v).subrange(12, 14)) == 1,
        le16_value(video_strf(v).subrange(14, 16)) == 24,
        video_strf(v).subrange(16, 20) == v.fourcc@,
{
    let s = video_strf(v);
    lemma_le32_roundtrip(40);
    lemma_le32_roundtrip(v.width as int);
    lemma_le32_roundtrip(v.height as int);
    lemma_le16_roundtrip(1);
    lemma_le16_roundtrip(24);
    assert(s.subrange(0, 4) =~= le32(40));
    assert(s.subrange(4, 8) =~= le32(v.width as int));
    assert(s.subrange(8, 12) =~= le32(v.height as int));
    assert(s.subrange(12, 14) =~= le16(1));
    assert(s.subrange(14, 16) =~= le16(24));
    assert(s.subrange(16, 20) =~= v.fourcc@);
}

/// The main header the muxer writes reads back, as little-endian numbers, with the time of a
/// frame in microseconds (a million over the video frame rate, or over 30 without video) at
/// bytes 0 to 3, the number of tracks (`dwStreams`) at bytes 24 to 27, and the video width and
/// height (zero without video) at bytes 32 to 35 and 36 to 39.
pub proof fn law_avi_main_header_read_back(v: Option<AviVideoTrack>, a: Option<AviAudioTrack>)
    requires
        v matches Some(t) ==> t.fps != 0,
    ensures
        avih_body(v, a).len() == 56,
        le32_value(avih_body(v, a).subrange(0, 4)) == 1000000int / (match v {
            Some(t) => t.fps as int,
            None => 30,
        }),
        le32_value(avih_body(v, a).subrange(24, 28)) == (if v is Some { 1int } else { 0 }) + (if a is Some {
            1int
        } else {
            0
        }),
        le32_value(avih_body(v, a).subrange(32, 36)) == (match v {
            Some(t) => t.width as int,
            None => 0,
        }),
        le32_value(avih_body(v, a).subrange(36, 40)) == (match v {
            Some(t) => t.height as int,
            None => 0,
        }),
{
    let b = avih_body(v, a);
    let fps: int = match v { Some(t) => t.fps as int, None => 30 };
    let width: int = match v { Some(t) => t.width as int, None => 0 };
    let height: int = match v { Some(t) => t.height as int, None => 0 };
    let n: int = (if v is Some { 1int } else { 0 }) + (if a is Some { 1int } else { 0 });
    assert(0 <= 1000000int / fps <= 1000000) by (nonlinear_arith)
        requires
            fps >= 1,
    ;
    lemma_le32_roundtrip(1000000int / fps);
    lemma_le32_roundtrip(n);
    lemma_le32_roundtrip(width);
    lemma_le32_roundtrip(height);
    assert(b.subrange(0, 4) =~= le32(1000000int / fps));
    assert(b.subrange(24, 28) =~= le32(n));
    assert(b.subrange(32, 36) =~= le32(width));
    assert(b.subrange(36, 40) =~= le32(height));
}

/// The video stream header the muxer writes reads back as a `vids` stream handled by the
/// track's fourcc, whose rate over scale (bytes 24 to 27 over bytes 20 to 23) is the frame rate.
pub proof fn law_avi_video_stream_header_read_back(v: AviVideoTrack)
    ensures
        video_strh(v).len() == 56,
        video_strh(v).subrange(0, 4) == seq![0x76u8, 0x69, 0x64, 0x73],
        video_strh(v).subrange(4, 8) == v.fourcc@,
        le32_value(video_strh(v).subrange(20, 24)) == 1,
        le32_value(video_strh(v).subrange(24, 28)) == v.fps,
{
    let b = video_strh(v);
    lemma_le32_roundtrip(1);
    lemma_le32_roundtrip(v.fps as int);
    assert(b.subrange(0, 4) =~= seq![0x76u8, 0x69, 0x64, 0x73]);
    assert(b.subrange(4, 8) =~= v.fourcc@);
    assert(b.subrange(20, 24) =~= le32(1));
    assert(b.subrange(24, 28) =~= le32(v.fps as int));
}

/// The audio stream format the muxer writes is a WAVEFORMATEX that reads back, as
/// little-endian numbers, as the track's format tag, channels, sample rate, a byte rate of the
/// sample rate times the block alignment, a block alignment of the channels times the whole
/// bytes of a sample, and the track's bits per sample.
pub proof fn law_avi_audio_format_read_back(a: AviAudioTrack)
    requires
        audio_ok(a),
    ensures
        audio_strf(a).len() == 18,
        le16_value(audio_strf(a).subrange(0, 2)) == a.format_tag,
        le16_value(audio_strf(a).subrange(2, 4)) == a.channels,
        le32_value(audio_strf(a).subrange(4, 8)) == a.sample_rate,
        le32_value(audio_strf(a).subrange(8, 12)) == a.sample_rate * (a.channels * (a.bit_depth / 8)),
        le16_value(audio_strf(a).subrange(12, 14)) == a.channels * (a.bit_depth / 8),
        le16_value(audio_strf(a).subrange(14, 16)) == a.bit_depth,
{
    let b = audio_strf(a);
    let ba = audio_block_align(a);
    assert(ba >= 0) by (nonlinear_arith)
        requires
            ba == a.channels * (a.bit_depth / 8),
    ;
    assert(a.sample_rate * ba >= 0) by (nonlinear_arith)
        requires
            ba >= 0,
    ;
    lemma_le16_roundtrip(a.format_tag as int);
    lemma_le16_roundtrip(a.channels as int);
    lemma_le32_roundtrip(a.sample_rate as int);
    lemma_le32_roundtrip(a.sample_rate * ba);
    lemma_le16_roundtrip(ba);
    lemma_le16_roundtrip(a.bit_depth as int);
    lemma_le16_roundtrip(0);
    assert(b.subrange(0, 2) =~= le16(a.format_tag as int));
    assert(b.subrange(2, 4) =~= le16(a.channels as int));
    assert(b.subrange(4, 8) =~= le32(a.sample_rate as int));
    assert(b.subrange(8, 12) =~= le32(a.sample_rate * ba));
    assert(b.subrange(12, 14) =~= le16(ba));
    assert(b.subrange(14, 16) =~= le16(a.bit_depth as int));
}

} // verus!
