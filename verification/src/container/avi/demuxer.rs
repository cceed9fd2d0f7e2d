use crate::container::wav::demuxer::check_fourcc;
use crate::error::Error;
use crate::io::{fcc, fourcc_is, fourcc_value, le16_value, le32_value, ByteReader};
use crate::media::{Packet, Stream, StreamKind, Streams, Time};
use crate::text::{lowercase, str_to_lowercase, string_from_utf8_lossy, trim_trailing_zeros, trim_zeros, utf8_lossy};
use vstd::prelude::*;

verus! {

broadcast use vstd::std_specs::control_flow::group_control_flow_axioms;

/// What a stream list says of its stream: kind, codec name, rate, scale and block alignment.
pub type InfoModel = (StreamKind, Seq<char>, u32, u32, u16);

/// What a stream list says before any of its chunks is read.
pub open spec fn strl_init() -> InfoModel {
    (StreamKind::Video, Seq::empty(), 30, 1, 0)
}

/// The stream kind a `strh` type code names; codes it does not know count as video.
pub open spec fn fourcc_kind(t: Seq<u8>) -> StreamKind {
    if t == fcc(0x61, 0x75, 0x64, 0x73) {
        StreamKind::Audio
    } else if t == fcc(0x74, 0x78, 0x74, 0x73) {
        StreamKind::Subtitle
    } else {
        StreamKind::Video
    }
}

/// A codec name made of a four-character code: its text without trailing zeros, lower-cased.
pub open spec fn fourcc_codec(b: Seq<u8>) -> Seq<char> {
    lowercase(utf8_lossy(trim_zeros(b)))
}

/// The lower-case hexadecimal digit of `n` (0 to 15).
pub open spec fn hex_digit(n: int) -> char {
    if n < 10 { (48 + n) as char } else { (87 + n) as char }
}

/// The codec name of a WAVE format tag.
pub open spec fn audio_codec(tag: u16) -> Seq<char> {
    if tag == 1 {
        "pcm_s16le"@
    } else if tag == 3 {
        "pcm_f32le"@
    } else if tag == 0x55 {
        "mp3"@
    } else if tag == 0xff {
        "aac"@
    } else {
        "audio_0x"@ + seq![
            hex_digit(((tag / 4096) % 16) as int),
            hex_digit(((tag / 256) % 16) as int),
            hex_digit(((tag / 16) % 16) as int),
            hex_digit((tag % 16) as int),
        ]
    }
}

/// Reading one chunk of a stream list: chunk id `id`, declared size `cs`, body starting `b`.
/// Gives what the list says after it and the bytes after the chunk.
#[verifier::opaque]
pub open spec fn strl_chunk(id: Seq<u8>, cs: int, b: Seq<u8>, st: InfoModel) -> Result<(InfoModel, Seq<u8>), Error> {
    if id == fcc(0x73, 0x74, 0x72, 0x68) && cs >= 8 {
        if b.len() < 8 {
            Err(Error::UnexpectedEof)
        } else {
            let kind = fourcc_kind(b.take(4));
            let codec = if kind == StreamKind::Video { fourcc_codec(b.skip(4).take(4)) } else { st.1 };
            if cs >= 28 {
                if b.len() < 28 || cs > b.len() {
                    Err(Error::UnexpectedEof)
                } else {
                    Ok(((kind, codec, le32_value(b.skip(24)) as u32, le32_value(b.skip(20)) as u32, st.4), b.skip(cs)))
                }
            } else if cs > b.len() {
                Err(Error::UnexpectedEof)
            } else {
                Ok(((kind, codec, st.2, st.3, st.4), b.skip(cs)))
            }
        }
    } else if id == fcc(0x73, 0x74, 0x72, 0x66) && st.0 == StreamKind::Audio && cs >= 16 {
        if b.len() < 16 || cs > b.len() {
            Err(Error::UnexpectedEof)
        } else {
            let ba = le16_value(b.skip(12)) as u16;
            Ok(((st.0, audio_codec(le16_value(b) as u16), le32_value(b.skip(4)) as u32, ba as u32, ba), b.skip(cs)))
        }
    } else if id == fcc(0x73, 0x74, 0x72, 0x66) && st.0 == StreamKind::Video && cs >= 40 {
        if b.len() < 20 || cs > b.len() {
            Err(Error::UnexpectedEof)
        } else {
            Ok(((st.0, fourcc_codec(b.skip(16).take(4)), st.2, st.3, st.4), b.skip(cs)))
        }
    } else if cs > b.len() {
        Err(Error::UnexpectedEof)
    } else {
        Ok((st, b.skip(cs)))
    }
}

/// Skipping what is left of a list of `remaining` bytes once fewer than eight are left.
pub open spec fn skip_tail<T>(s: Seq<u8>, remaining: int, v: T) -> Option<Result<(T, Seq<u8>), Error>> {
    if remaining > s.len() {
        Some(Err(Error::UnexpectedEof))
    } else {
        Some(Ok((v, s.skip(remaining))))
    }
}

/// Reading the chunks of a stream list with `remaining` bytes left: what the list says and the
/// bytes after it. `None` where a chunk declares more bytes than the list has left, which the
/// sizes cannot express.
pub open spec fn strl_walk(s: Seq<u8>, remaining: int, st: InfoModel) -> Option<Result<(InfoModel, Seq<u8>), Error>>
    decreases s.len(),
{
    if remaining < 8 {
        skip_tail(s, if remaining > 0 { remaining } else { 0 }, st)
    } else if s.len() < 8 {
        Some(Err(Error::UnexpectedEof))
    } else {
        let cs = le32_value(s.skip(4));
        match strl_chunk(s.take(4), cs, s.skip(8), st) {
            Err(e) => Some(Err(e)),
            Ok((st2, r)) => if cs > remaining - 8 {
                None
            } else {
                proof {
                    lemma_strl_chunk_shrinks(s.take(4), cs, s.skip(8), st);
                }
                strl_walk(r, remaining - 8 - cs, st2)
            },
        }
    }
}

pub proof fn lemma_strl_chunk_shrinks(id: Seq<u8>, cs: int, b: Seq<u8>, st: InfoModel)
    requires
        0 <= cs,
    ensures
        strl_chunk(id, cs, b, st) matches Ok((_, r)) ==> r.len() <= b.len(),
{
    reveal(strl_chunk);
}

/// Reading the chunks of the `hdrl` list with `remaining` bytes left: the stream lists read, in
/// order, and the bytes after the list. `None` where a chunk declares more bytes than the
/// list has left, or a `LIST` chunk fewer than four.
pub open spec fn hdrl_walk(s: Seq<u8>, remaining: int, infos: Seq<InfoModel>) -> Option<
    Result<(Seq<InfoModel>, Seq<u8>), Error>,
>
    decreases s.len(),
{
    if remaining < 8 {
        skip_tail(s, if remaining > 0 { remaining } else { 0 }, infos)
    } else if s.len() < 8 {
        Some(Err(Error::UnexpectedEof))
    } else {
        let cs = le32_value(s.skip(4));
        match hdrl_chunk(s.take(4), cs, s.skip(8), remaining - 8, infos) {
            None => None,
            Some(Err(e)) => Some(Err(e)),
            Some(Ok((inf2, r))) => {
                proof {
                    lemma_hdrl_chunk_shrinks(s.take(4), cs, s.skip(8), remaining - 8, infos);
                }
                hdrl_walk(r, remaining - 8 - cs, inf2)
            },
        }
    }
}

/// Reading one chunk of the `hdrl` list, whose header is read, with `remaining` bytes of the
/// list left after that header.
#[verifier::opaque]
pub open spec fn hdrl_chunk(id: Seq<u8>, cs: int, b: Seq<u8>, remaining: int, infos: Seq<InfoModel>) -> Option<
    Result<(Seq<InfoModel>, Seq<u8>), Error>,
> {
    if id == fcc(0x4c, 0x49, 0x53, 0x54) {
        if b.len() < 4 {
            Some(Err(Error::UnexpectedEof))
        } else if cs < 4 || cs > remaining {
            None
        } else if b.take(4) == fcc(0x73, 0x74, 0x72, 0x6c) {
            match strl_walk(b.skip(4), cs - 4, strl_init()) {
                None => None,
                Some(Err(e)) => Some(Err(e)),
                Some(Ok((st, r))) => Some(Ok((infos.push(st), r))),
            }
        } else if cs > b.len() {
            Some(Err(Error::UnexpectedEof))
        } else {
            Some(Ok((infos, b.skip(cs))))
        }
    } else if cs > b.len() {
        Some(Err(Error::UnexpectedEof))
    } else if cs > remaining {
        None
    } else {
        Some(Ok((infos, b.skip(cs))))
    }
}

pub proof fn lemma_hdrl_chunk_shrinks(id: Seq<u8>, cs: int, b: Seq<u8>, remaining: int, infos: Seq<InfoModel>)
    requires
        0 <= cs,
    ensures
        hdrl_chunk(id, cs, b, remaining, infos) matches Some(Ok((_, r))) ==> r.len() <= b.len(),
{
    reveal(hdrl_chunk);
    if id == fcc(0x4c, 0x49, 0x53, 0x54) && b.len() >= 4 && cs >= 4 && cs <= remaining && b.take(4) == fcc(
        0x73,
        0x74,
        0x72,
        0x6c,
    ) {
        lemma_strl_walk_shrinks(b.skip(4), cs - 4, strl_init());
    }
}

pub proof fn lemma_strl_walk_shrinks(s: Seq<u8>, remaining: int, st: InfoModel)
    ensures
        strl_walk(s, remaining, st) matches Some(Ok((_, r))) ==> r.len() <= s.len(),
    decreases s.len(),
{
    if remaining >= 8 && s.len() >= 8 {
        let cs = le32_value(s.skip(4));
        lemma_strl_chunk_shrinks(s.take(4), cs, s.skip(8), st);
        match strl_chunk(s.take(4), cs, s.skip(8), st) {
            Ok((st2, r)) => if cs <= remaining - 8 {
                lemma_strl_walk_shrinks(r, remaining - 8 - cs, st2);
            },
            Err(_) => {},
        }
    }
}

pub proof fn lemma_hdrl_walk_shrinks(s: Seq<u8>, remaining: int, infos: Seq<InfoModel>)
    ensures
        hdrl_walk(s, remaining, infos) matches Some(Ok((_, r))) ==> r.len() <= s.len(),
    decreases s.len(),
{
    if remaining >= 8 && s.len() >= 8 {
        let cs = le32_value(s.skip(4));
        lemma_hdrl_chunk_shrinks(s.take(4), cs, s.skip(8), remaining - 8, infos);
        match hdrl_chunk(s.take(4), cs, s.skip(8), remaining - 8, infos) {
            Some(Ok((inf2, r))) => {
                lemma_hdrl_walk_shrinks(r, remaining - 8 - cs, inf2);
            },
            _ => {},
        }
    }
}

/// Reading the top-level chunks after `AVI ` up to the `movi` list: the stream lists read,
/// the size of the `movi` data, and the bytes where it begins. The walk stops with no `movi`
/// data where fewer than four bytes are left. `None` where a `LIST` chunk declares fewer than
/// four bytes or the `hdrl` list cannot be read without its sizes underflowing.
pub open spec fn avi_top(s: Seq<u8>, infos: Seq<InfoModel>) -> Option<Result<(Seq<InfoModel>, u64, Seq<u8>), Error>>
    decreases s.len(),
{
    if s.len() < 4 {
        Some(Ok((infos, 0, s)))
    } else if s.len() < 8 {
        Some(Err(Error::UnexpectedEof))
    } else {
        let id = s.take(4);
        let cs = le32_value(s.skip(4));
        let b = s.skip(8);
        if id == fcc(0x4c, 0x49, 0x53, 0x54) {
            if b.len() < 4 {
                Some(Err(Error::UnexpectedEof))
            } else if cs < 4 {
                None
            } else if b.take(4) == fcc(0x68, 0x64, 0x72, 0x6c) {
                match hdrl_walk(b.skip(4), cs - 4, infos) {
                    None => None,
                    Some(Err(e)) => Some(Err(e)),
                    Some(Ok((inf2, r))) => {
                        proof {
                            lemma_hdrl_walk_shrinks(b.skip(4), cs - 4, infos);
                        }
                        avi_top(r, inf2)
                    },
                }
            } else if b.take(4) == fcc(0x6d, 0x6f, 0x76, 0x69) {
                Some(Ok((infos, (cs - 4) as u64, b.skip(4))))
            } else if cs > b.len() {
                Some(Err(Error::UnexpectedEof))
            } else {
                avi_top(b.skip(cs), infos)
            }
        } else if cs > b.len() {
            Some(Err(Error::UnexpectedEof))
        } else {
            avi_top(b.skip(cs), infos)
        }
    }
}

/// Parsing an AVI file up to its `movi` data.
pub open spec fn avi_parse(s: Seq<u8>) -> Option<Result<(Seq<InfoModel>, u64, Seq<u8>), Error>> {
    if s.len() < 4 {
        Some(Err(Error::UnexpectedEof))
    } else if s.take(4) != fcc(0x52, 0x49, 0x46, 0x46) {
        Some(Err(Error::BadFourcc { expected: 0x52494646, found: fourcc_value(s) }))
    } else if s.len() < 12 {
        Some(Err(Error::UnexpectedEof))
    } else if s.skip(8).take(4) != fcc(0x41, 0x56, 0x49, 0x20) {
        Some(Err(Error::BadFourcc { expected: 0x41564920, found: fourcc_value(s.skip(8)) }))
    } else {
        avi_top(s.skip(12), seq![])
    }
}

/// The stream index a chunk id names: two decimal digits, if they name one of `n` streams.
pub open spec fn chunk_stream(id: Seq<u8>, n: int) -> Option<u32> {
    if id[0] < 48 || id[0] > 57 || id[1] < 48 || id[1] > 57 {
        None
    } else {
        let idx = (id[0] - 48) * 10 + (id[1] - 48);
        if idx < n { Some(idx as u32) } else { None }
    }
}

/// Reading the next packet of the `movi` data from `s`, with `dr` bytes of it left and `n`
/// streams: the stream and bytes of the packet (none once fewer than eight bytes of data or
/// four of input are left), the bytes after it and the data left after it. Chunks of no known
/// stream are skipped, as is the pad byte after odd data. `None` where a chunk declares more
/// bytes than the data has left.
pub open spec fn avi_next(s: Seq<u8>, dr: int, n: int) -> Option<
    Result<(Option<(u32, Seq<u8>)>, Seq<u8>, int), Error>,
>
    decreases s.len(),
{
    if dr < 8 || s.len() < 4 {
        Some(Ok((None, s, dr)))
    } else if s.len() < 8 {
        Some(Err(Error::UnexpectedEof))
    } else {
        let cs = le32_value(s.skip(4));
        let b = s.skip(8);
        if cs > b.len() {
            Some(Err(Error::UnexpectedEof))
        } else if cs > dr - 8 {
            None
        } else {
            let dr2 = dr - 8 - cs;
            let r = b.skip(cs);
            match chunk_stream(s.take(4), n) {
                Some(sid) => {
                    let r2 = if cs % 2 == 1 && r.len() >= 1 { r.skip(1) } else { r };
                    let dr3 = if cs % 2 == 1 && dr2 > 0 { dr2 - 1 } else { dr2 };
                    Some(Ok((Some((sid, b.take(cs))), r2, dr3)))
                },
                None => if cs % 2 == 1 && dr2 > 0 {
                    if r.len() < 1 {
                        Some(Err(Error::UnexpectedEof))
                    } else {
                        avi_next(r.skip(1), dr2 - 1, n)
                    }
                } else {
                    avi_next(r, dr2, n)
                },
            }
        }
    }
}

/// The time base of a stream: scale over rate, or milliseconds where the scale is zero.
pub open spec fn info_time(m: InfoModel) -> Time {
    if m.3 > 0 { Time { num: m.3, den: m.2 } } else { Time { num: 1, den: 1000 } }
}

/// One stream's description, as the demuxer keeps it.
#[derive(Debug, Clone)]
pub struct StreamInfo {
    pub id: u32,
    pub kind: StreamKind,
    pub codec: String,
    /// Frames per second for video, samples per second for audio.
    pub rate: u32,
    pub scale: u32,
    pub block_align: u16,
}

/// What a stream description holds, without its id.
pub open spec fn info_model(i: StreamInfo) -> InfoModel {
    (i.kind, i.codec@, i.rate, i.scale, i.block_align)
}

fn hex_digit_str(n: u16) -> (s: &'static str)
    requires
        n < 16,
    ensures
        s@ == seq![hex_digit(n as int)],
{
    proof {
        reveal_strlit("0");
        reveal_strlit("1");
        reveal_strlit("2");
        reveal_strlit("3");
        reveal_strlit("4");
        reveal_strlit("5");
        reveal_strlit("6");
        reveal_strlit("7");
        reveal_strlit("8");
        reveal_strlit("9");
        reveal_strlit("a");
        reveal_strlit("b");
        reveal_strlit("c");
        reveal_strlit("d");
        reveal_strlit("e");
        reveal_strlit("f");
    }
    let s = match n {
        0 => "0",
        1 => "1",
        2 => "2",
        3 => "3",
        4 => "4",
        5 => "5",
        6 => "6",
        7 => "7",
        8 => "8",
        9 => "9",
        10 => "a",
        11 => "b",
        12 => "c",
        13 => "d",
        14 => "e",
        _ => "f",
    };
    assert(s@ =~= seq![hex_digit(n as int)]);
    s
}

/// The codec name of a WAVE format tag: `audio_0x` and four hexadecimal digits for tags it
/// does not know.
pub fn audio_codec_string(tag: u16) -> (s: String)
    ensures
        s@ == audio_codec(tag),
{
    if tag == 1 {
        String::from_str("pcm_s16le")
    } else if tag == 3 {
        String::from_str("pcm_f32le")
    } else if tag == 0x55 {
        String::from_str("mp3")
    } else if tag == 0xff {
        String::from_str("aac")
    } else {
        let mut s = String::from_str("audio_0x");
        s.append(hex_digit_str((tag / 4096) % 16));
        s.append(hex_digit_str((tag / 256) % 16));
        s.append(hex_digit_str((tag / 16) % 16));
        s.append(hex_digit_str(tag % 16));
        assert(s@ =~= audio_codec(tag));
        s
    }
}

/// The codec name a four-character code gives: its text without trailing zeros, lower-cased.
pub fn fourcc_codec_string(b: &[u8]) -> (s: String)
    ensures
        s@ == fourcc_codec(b@),
{
    let t = trim_trailing_zeros(b);
    let u = string_from_utf8_lossy(t.as_slice());
    str_to_lowercase(u.as_str())
}

/// Reads a stream list of `size` bytes and adds what it says of its stream to `infos`, with
/// the next id.
#[verifier::rlimit(40)]
fn parse_strl(reader: &mut ByteReader, size: u64, infos: &mut Vec<StreamInfo>) -> (r: Result<Option<()>, Error>)
    ensures
        match strl_walk(old(reader).rest(), size as int, strl_init()) {
            None => r == Ok::<Option<()>, Error>(None),
            Some(Err(e)) => r == Err::<Option<()>, Error>(e),
            Some(Ok((st, rest))) => r == Ok::<Option<()>, Error>(Some(())) && final(reader).rest() == rest
                && final(infos)@.len() == old(infos)@.len() + 1 && final(infos)@.drop_last() == old(infos)@
                && info_model(final(infos)@.last()) == st && final(infos)@.last().id == (old(infos)@.len() as u32),
        },
{
    let ghost goal = strl_walk(reader.rest(), size as int, strl_init());
    let mut remaining = size;
    let mut info = StreamInfo {
        id: 0,
        kind: StreamKind::Video,
        codec: String::new(),
        rate: 30,
        scale: 1,
        block_align: 0,
    };
    assert(info_model(info) =~= strl_init());
    while remaining >= 8
        invariant
            strl_walk(reader.rest(), remaining as int, info_model(info)) == goal,
            goal == strl_walk(old(reader).rest(), size as int, strl_init()),
            infos@ == old(infos)@,
        decreases reader.rest().len(),
    {
        let ghost s = reader.rest();
        let chunk_id = reader.read_fourcc()?;
        let chunk_size = reader.read_u32_le()? as u64;
        proof {
            assert(s.skip(4).skip(4) =~= s.skip(8));
            assert(chunk_id@ == s.take(4));
            assert(chunk_size == le32_value(s.skip(4)));
            lemma_strl_chunk_shrinks(s.take(4), chunk_size as int, s.skip(8), info_model(info));
        }
        remaining = remaining - 8;
        read_strl_chunk(reader, chunk_id, chunk_size, &mut info)?;
        if chunk_size > remaining {
            return Ok(None);
        }
        remaining = remaining - chunk_size;
    }
    if remaining > 0 {
        reader.skip(remaining)?;
    }
    let id = infos.len() as u32;
    info.id = id;
    infos.push(info);
    assert(infos@.drop_last() =~= old(infos)@);
    Ok(Some(()))
}

/// The descriptions' models, in order.
pub open spec fn models(infos: Seq<StreamInfo>) -> Seq<InfoModel> {
    infos.map_values(|i: StreamInfo| info_model(i))
}

/// Whether every description's id is its position.
pub open spec fn ids_in_order(infos: Seq<StreamInfo>) -> bool {
    forall|k: int| 0 <= k < infos.len() ==> #[trigger] infos[k].id == (k as u32)
}

/// Reads one chunk of the `hdrl` list, whose header is read.
fn read_hdrl_chunk(reader: &mut ByteReader, id: [u8; 4], cs: u64, remaining: u64, infos: &mut Vec<StreamInfo>) -> (r:
    Result<Option<()>, Error>)
    requires
        ids_in_order(old(infos)@),
    ensures
        match hdrl_chunk(id@, cs as int, old(reader).rest(), remaining as int, models(old(infos)@)) {
            None => r == Ok::<Option<()>, Error>(None),
            Some(Err(e)) => r == Err::<Option<()>, Error>(e),
            Some(Ok((ms, rest))) => r == Ok::<Option<()>, Error>(Some(())) && final(reader).rest() == rest
                && models(final(infos)@) == ms && ids_in_order(final(infos)@) && cs <= remaining,
        },
{
    reveal(hdrl_chunk);
    let ghost b = reader.rest();
    let ghost ms = models(infos@);
    if fourcc_is(id, 0x4c, 0x49, 0x53, 0x54) {
        let list_type = reader.read_fourcc()?;
        if cs < 4 || cs > remaining {
            return Ok(None);
        }
        let inner_size = cs - 4;
        if fourcc_is(list_type, 0x73, 0x74, 0x72, 0x6c) {
            match parse_strl(reader, inner_size, infos)? {
                None => {
                    return Ok(None);
                },
                Some(()) => {},
            }
            proof {
                assert(models(infos@) =~= ms.push(info_model(infos@.last())));
                assert forall|k: int| 0 <= k < infos@.len() implies #[trigger] infos@[k].id == (k as u32) by {
                    if k < infos@.len() - 1 {
                        assert(infos@[k] == infos@.drop_last()[k]);
                    }
                }
            }
        } else {
            reader.skip(inner_size)?;
            assert(b.skip(4).skip(inner_size as int) =~= b.skip(cs as int));
        }
    } else {
        reader.skip(cs)?;
        if cs > remaining {
            return Ok(None);
        }
    }
    Ok(Some(()))
}

/// Reads the `hdrl` list of `size` bytes, adding a description per stream list to `infos`.
fn parse_hdrl(reader: &mut ByteReader, size: u64, infos: &mut Vec<StreamInfo>) -> (r: Result<Option<()>, Error>)
    requires
        ids_in_order(old(infos)@),
    ensures
        match hdrl_walk(old(reader).rest(), size as int, models(old(infos)@)) {
            None => r == Ok::<Option<()>, Error>(None),
            Some(Err(e)) => r == Err::<Option<()>, Error>(e),
            Some(Ok((ms, rest))) => r == Ok::<Option<()>, Error>(Some(())) && final(reader).rest() == rest
                && models(final(infos)@) == ms && ids_in_order(final(infos)@),
        },
{
    let ghost goal = hdrl_walk(reader.rest(), size as int, models(infos@));
    let mut remaining = size;
    while remaining >= 8
        invariant
            hdrl_walk(reader.rest(), remaining as int, models(infos@)) == goal,
            goal == hdrl_walk(old(reader).rest(), size as int, models(old(infos)@)),
            ids_in_order(infos@),
        decreases reader.rest().len(),
    {
        let ghost s = reader.rest();
        let chunk_id = reader.read_fourcc()?;
        let chunk_size = reader.read_u32_le()? as u64;
        proof {
            assert(s.skip(4).skip(4) =~= s.skip(8));
            assert(chunk_id@ == s.take(4));
            assert(chunk_size == le32_value(s.skip(4)));
            lemma_hdrl_chunk_shrinks(s.take(4), chunk_size as int, s.skip(8), remaining - 8, models(infos@));
        }
        remaining = remaining - 8;
        match read_hdrl_chunk(reader, chunk_id, chunk_size, remaining, infos)? {
            None => {
                return Ok(None);
            },
            Some(()) => {},
        }
        remaining = remaining - chunk_size;
    }
    if remaining > 0 {
        reader.skip(remaining)?;
    }
    Ok(Some(()))
}

/// Reads one chunk of a stream list, whose header is already read, into `info`.
fn read_strl_chunk(reader: &mut ByteReader, id: [u8; 4], cs: u64, info: &mut StreamInfo) -> (r: Result<(), Error>)
    ensures
        match strl_chunk(id@, cs as int, old(reader).rest(), info_model(*old(info))) {
            Err(e) => r == Err::<(), Error>(e),
            Ok((st, rest)) => r is Ok && info_model(*final(info)) == st && final(reader).rest() == rest
                && final(info).id == old(info).id,
        },
{
    reveal(strl_chunk);
    let ghost b = reader.rest();
    let ghost st = info_model(*info);
    if fourcc_is(id, 0x73, 0x74, 0x72, 0x68) && cs >= 8 {
        if reader.remaining() < 8 {
            return Err(Error::UnexpectedEof);
        }
        let fcc_type = reader.read_fourcc()?;
        let handler = reader.read_fourcc()?;
        assert(b.skip(4).take(4) =~= handler@);
        let kind = if fourcc_is(fcc_type, 0x61, 0x75, 0x64, 0x73) {
            StreamKind::Audio
        } else if fourcc_is(fcc_type, 0x74, 0x78, 0x74, 0x73) {
            StreamKind::Subtitle
        } else {
            StreamKind::Video
        };
        if cs >= 28 {
            if reader.remaining() < 20 || cs - 8 > reader.remaining() as u64 {
                return Err(Error::UnexpectedEof);
            }
            if let StreamKind::Video = kind {
                info.codec = fourcc_codec_string(&handler);
            }
            info.kind = kind;
            reader.skip(12)?;
            let scale = reader.read_u32_le()?;
            let rate = reader.read_u32_le()?;
            reader.skip(cs - 28)?;
            info.scale = scale;
            info.rate = rate;
            proof {
                assert(b.skip(8).skip(12) =~= b.skip(20));
                assert(b.skip(20).skip(4) =~= b.skip(24));
                assert(b.skip(24).skip(4).skip(cs - 28) =~= b.skip(cs as int));
            }
        } else {
            if cs - 8 > reader.remaining() as u64 {
                return Err(Error::UnexpectedEof);
            }
            if let StreamKind::Video = kind {
                info.codec = fourcc_codec_string(&handler);
            }
            info.kind = kind;
            reader.skip(cs - 8)?;
            assert(b.skip(8).skip(cs - 8) =~= b.skip(cs as int));
        }
        Ok(())
    } else if fourcc_is(id, 0x73, 0x74, 0x72, 0x66) && matches!(info.kind, StreamKind::Audio) && cs >= 16 {
        if reader.remaining() < 16 || cs > reader.remaining() as u64 {
            return Err(Error::UnexpectedEof);
        }
        let format_tag = reader.read_u16_le()?;
        let _channels = reader.read_u16_le()?;
        let sample_rate = reader.read_u32_le()?;
        let _avg_bytes_per_sec = reader.read_u32_le()?;
        let block_align = reader.read_u16_le()?;
        let _bits_per_sample = reader.read_u16_le()?;
        reader.skip(cs - 16)?;
        proof {
            assert(b.skip(2).skip(2) =~= b.skip(4));
            assert(b.skip(4).skip(4) =~= b.skip(8));
            assert(b.skip(8).skip(4) =~= b.skip(12));
            assert(b.skip(12).skip(2).skip(2) =~= b.skip(16));
            assert(b.skip(16).skip(cs - 16) =~= b.skip(cs as int));
        }
        info.rate = sample_rate;
        info.scale = block_align as u32;
        info.block_align = block_align;
        info.codec = audio_codec_string(format_tag);
        Ok(())
    } else if fourcc_is(id, 0x73, 0x74, 0x72, 0x66) && matches!(info.kind, StreamKind::Video) && cs >= 40 {
        if reader.remaining() < 20 || cs > reader.remaining() as u64 {
            return Err(Error::UnexpectedEof);
        }
        reader.skip(16)?;
        let compression = reader.read_fourcc()?;
        reader.skip(cs - 20)?;
        proof {
            assert(b.skip(16).take(4) =~= compression@);
            assert(b.skip(16).skip(4).skip(cs - 20) =~= b.skip(cs as int));
        }
        info.codec = fourcc_codec_string(&compression);
        Ok(())
    } else {
        reader.skip(cs)?;
        Ok(())
    }
}

/// Reads the top-level chunks after `AVI ` up to the `movi` list, adding a description per
/// stream list to `infos`, and gives the size of the `movi` data.
fn read_top(reader: &mut ByteReader, infos: &mut Vec<StreamInfo>) -> (r: Result<Option<u64>, Error>)
    requires
        ids_in_order(old(infos)@),
    ensures
        match avi_top(old(reader).rest(), models(old(infos)@)) {
            None => r == Ok::<Option<u64>, Error>(None),
            Some(Err(e)) => r == Err::<Option<u64>, Error>(e),
            Some(Ok((ms, size, rest))) => r == Ok::<Option<u64>, Error>(Some(size)) && final(reader).rest() == rest
                && models(final(infos)@) == ms && ids_in_order(final(infos)@),
        },
        r matches Ok(Some(x)) ==> x <= u32::MAX,
{
    let ghost goal = avi_top(reader.rest(), models(infos@));
    loop
        invariant
            avi_top(reader.rest(), models(infos@)) == goal,
            goal == avi_top(old(reader).rest(), models(old(infos)@)),
            ids_in_order(infos@),
        decreases reader.rest().len(),
    {
        let ghost s = reader.rest();
        if reader.remaining() < 4 {
            return Ok(Some(0));
        }
        let chunk_id = reader.read_fourcc()?;
        let chunk_size = reader.read_u32_le()? as u64;
        proof {
            assert(s.skip(4).skip(4) =~= s.skip(8));
            assert(chunk_id@ == s.take(4));
            assert(chunk_size == le32_value(s.skip(4)));
        }
        let ghost b = s.skip(8);
        if fourcc_is(chunk_id, 0x4c, 0x49, 0x53, 0x54) {
            let list_type = reader.read_fourcc()?;
            if chunk_size < 4 {
                return Ok(None);
            }
            if fourcc_is(list_type, 0x68, 0x64, 0x72, 0x6c) {
                proof {
                    lemma_hdrl_walk_shrinks(b.skip(4), chunk_size - 4, models(infos@));
                }
                match parse_hdrl(reader, chunk_size - 4, infos)? {
                    None => {
                        return Ok(None);
                    },
                    Some(()) => {},
                }
            } else if fourcc_is(list_type, 0x6d, 0x6f, 0x76, 0x69) {
                return Ok(Some(chunk_size - 4));
            } else {
                reader.skip(chunk_size - 4)?;
                assert(b.skip(4).skip(chunk_size - 4) =~= b.skip(chunk_size as int));
            }
        } else {
            reader.skip(chunk_size)?;
        }
    }
}

/// The AVI demuxer: reads the stream lists, then hands out the chunks of the `movi` data.
pub struct AviDemuxer {
    reader: ByteReader,
    streams: Streams,
    stream_info: Vec<StreamInfo>,
    data_remaining: u64,
    packet_count: u64,
}

/// The time base of a stream description.
fn time_of(info: &StreamInfo) -> (t: Time)
    ensures
        t == info_time(info_model(*info)),
{
    if info.scale > 0 {
        Time::new(info.scale, info.rate)
    } else {
        Time::new(1, 1000)
    }
}

impl AviDemuxer {
    /// The bytes not read yet.
    pub closed spec fn source(&self) -> Seq<u8> {
        self.reader.rest()
    }

    /// The streams.
    pub closed spec fn spec_streams(&self) -> Streams {
        self.streams
    }

    /// What the stream lists say, in order.
    pub closed spec fn spec_infos(&self) -> Seq<InfoModel> {
        models(self.stream_info@)
    }

    /// The bytes of `movi` data left.
    pub closed spec fn spec_data_remaining(&self) -> u64 {
        self.data_remaining
    }

    /// The packets handed out so far.
    pub closed spec fn spec_packet_count(&self) -> u64 {
        self.packet_count
    }

    /// The packet counter cannot overflow: every packet takes at least eight bytes of data.
    pub closed spec fn wf(&self) -> bool {
        &&& self.packet_count * 8 + self.data_remaining <= u32::MAX
        &&& ids_in_order(self.stream_info@)
    }

    /// Whether the demuxer is what parsing found: the stream lists `ms`, in order, stream `i`
    /// with id `i` and the kind, codec and time base its list gives, and `size` bytes of `movi`
    /// data starting at `rest`, no packet handed out yet.
    pub open spec fn opened_as(&self, ms: Seq<InfoModel>, size: u64, rest: Seq<u8>) -> bool {
        &&& self.wf()
        &&& self.source() == rest
        &&& self.spec_infos() == ms
        &&& self.spec_data_remaining() == size
        &&& self.spec_packet_count() == 0
        &&& self.spec_streams().items@.len() == ms.len()
        &&& forall|i: int| 0 <= i < ms.len() ==> {
            let st = #[trigger] self.spec_streams().items@[i];
            &&& st.id == i as u32
            &&& st.index == i
            &&& st.kind == ms[i].0
            &&& st.codec@ == ms[i].1
            &&& st.time == info_time(ms[i])
        }
    }

    /// Parses the RIFF header and the chunks up to the `movi` list, as `avi_parse` reads them.
    pub fn new(reader: ByteReader) -> (r: Result<Self, Error>)
        requires
            avi_parse(reader.rest()) is Some,
        ensures
            match avi_parse(reader.rest()).unwrap() {
                Err(e) => r == Err::<Self, Error>(e),
                Ok((ms, size, rest)) => r matches Ok(d) && d.opened_as(ms, size, rest),
            },
    {
        match Self::open(reader) {
            Some(r) => r,
            None => Err(Error::UnexpectedEof),
        }
    }

    /// Parses the RIFF header and the chunks up to the `movi` list, as `avi_parse` reads them;
    /// `None` where a size field is too small for the header it must cover, so that the sizes
    /// that follow would underflow.
    pub fn open(reader: ByteReader) -> (r: Option<Result<Self, Error>>)
        ensures
            match avi_parse(reader.rest()) {
                None => r is None,
                Some(Err(e)) => r == Some(Err::<Self, Error>(e)),
                Some(Ok((ms, size, rest))) => r matches Some(Ok(d)) && d.opened_as(ms, size, rest),
            },
    {
        match Self::parse_headers(reader) {
            Ok(Some(d)) => Some(Ok(d)),
            Ok(None) => None,
            Err(e) => Some(Err(e)),
        }
    }

    fn parse_headers(reader: ByteReader) -> (r: Result<Option<Self>, Error>)
        ensures
            match avi_parse(reader.rest()) {
                None => r == Ok::<Option<Self>, Error>(None),
                Some(Err(e)) => r == Err::<Option<Self>, Error>(e),
                Some(Ok((ms, size, rest))) => r matches Ok(Some(d)) && d.opened_as(ms, size, rest),
            },
    {
        let mut reader = reader;
        let ghost s0 = reader.rest();
        proof {
            if s0.len() >= 8 {
                assert(s0.skip(4).skip(4) =~= s0.skip(8));
            }
            if s0.len() >= 12 {
                assert(s0.skip(8).skip(4) =~= s0.skip(12));
            }
        }
        check_fourcc(&mut reader, 0x52, 0x49, 0x46, 0x46)?;
        let _file_size = reader.read_u32_le()?;
        check_fourcc(&mut reader, 0x41, 0x56, 0x49, 0x20)?;
        let mut stream_info: Vec<StreamInfo> = Vec::new();
        assert(models(stream_info@) =~= seq![]);
        let movi_size = match read_top(&mut reader, &mut stream_info)? {
            Some(n) => n,
            None => {
                return Ok(None);
            },
        };
        let mut streams = Streams::new_empty();
        let mut i: usize = 0;
        while i < stream_info.len()
            invariant
                i <= stream_info@.len(),
                ids_in_order(stream_info@),
                streams.items@.len() == i,
                forall|k: int| 0 <= k < i ==> {
                    let st = #[trigger] streams.items@[k];
                    &&& st.id == stream_info@[k].id
                    &&& st.index == k
                    &&& st.kind == stream_info@[k].kind
                    &&& st.codec@ == stream_info@[k].codec@
                    &&& st.time == info_time(info_model(stream_info@[k]))
                },
            decreases stream_info@.len() - i,
        {
            let info = &stream_info[i];
            let time = time_of(info);
            let stream = Stream::new(info.id, i, info.kind, info.codec.clone(), time);
            streams.add(stream);
            i = i + 1;
        }
        proof {
            let ms = models(stream_info@);
            assert forall|k: int| 0 <= k < ms.len() implies ms[k] == info_model(stream_info@[k]) by {}
        }
        let d = AviDemuxer { reader, streams, stream_info, data_remaining: movi_size, packet_count: 0 };
        Ok(Some(d))
    }

    /// The streams.
    pub fn streams(&self) -> (s: &Streams)
        ensures
            *s == self.spec_streams(),
    {
        &self.streams
    }

    /// The stream a chunk id like `00dc` or `01wb` names, and whether it names video
    /// (`dc` or `db`); `None` unless it names one of the streams.
    fn chunk_id_to_stream(&self, id: &[u8; 4]) -> (r: Option<(u32, bool)>)
        ensures
            match chunk_stream(id@, self.stream_info@.len() as int) {
                Some(sid) => r matches Some((x, v)) && x == sid && v == (id@[2] == 0x64 && (id@[3] == 0x63
                    || id@[3] == 0x62)),
                None => r is None,
            },
    {
        if id[0] < 48 || id[0] > 57 || id[1] < 48 || id[1] > 57 {
            return None;
        }
        let idx: u32 = ((id[0] - 48) as u32) * 10 + (id[1] - 48) as u32;
        let is_video = id[2] == 0x64 && (id[3] == 0x63 || id[3] == 0x62);
        if (idx as usize) < self.stream_info.len() {
            Some((idx, is_video))
        } else {
            None
        }
    }

    /// Whether `after` and the packet `p` are what reading one step `x` of `avi_next` from
    /// `before` gives.
    pub open spec fn stepped(
        before: AviDemuxer,
        after: AviDemuxer,
        x: (Option<(u32, Seq<u8>)>, Seq<u8>, int),
        p: Option<Packet>,
    ) -> bool {
        let (out, rest, dr) = x;
        &&& after.source() == rest
        &&& after.spec_data_remaining() == dr
        &&& match out {
            None => p is None && after.spec_packet_count() == before.spec_packet_count(),
            Some((sid, data)) => p matches Some(p) && {
                &&& p.data@ == data
                &&& p.stream_id == sid
                &&& p.time == info_time(before.spec_infos()[sid as int])
                &&& p.pts == before.spec_packet_count() as i64
                &&& !p.keyframe
                &&& after.spec_packet_count() == before.spec_packet_count() + 1
            },
        }
    }

    /// Hands out the next chunk of a known stream as a packet, numbered by the packets before
    /// it, as `avi_next` reads it; `None` once the `movi` data or the input is exhausted.
    pub fn read_packet(&mut self) -> (r: Result<Option<Packet>, Error>)
        requires
            old(self).wf(),
            avi_next(old(self).source(), old(self).spec_data_remaining() as int, old(self).spec_infos().len() as int) is Some,
        ensures
            final(self).wf(),
            final(self).spec_infos() == old(self).spec_infos(),
            final(self).spec_streams() == old(self).spec_streams(),
            match avi_next(old(self).source(), old(self).spec_data_remaining() as int, old(self).spec_infos().len() as int).unwrap() {
                Err(e) => r == Err::<Option<Packet>, Error>(e),
                Ok(x) => r matches Ok(p) && Self::stepped(*old(self), *final(self), x, p),
            },
    {
        match self.next_packet() {
            Some(r) => r,
            None => Err(Error::UnexpectedEof),
        }
    }

    /// Hands out the next chunk of a known stream as a packet, as `avi_next` reads it; `None`
    /// where a chunk declares more bytes than the `movi` data has left, so that the count of
    /// bytes left would underflow.
    pub fn next_packet(&mut self) -> (r: Option<Result<Option<Packet>, Error>>)
        requires
            old(self).wf(),
        ensures
            final(self).wf(),
            final(self).spec_infos() == old(self).spec_infos(),
            final(self).spec_streams() == old(self).spec_streams(),
            match avi_next(old(self).source(), old(self).spec_data_remaining() as int, old(self).spec_infos().len() as int) {
                None => r is None,
                Some(Err(e)) => r == Some(Err::<Option<Packet>, Error>(e)),
                Some(Ok(x)) => r matches Some(Ok(p)) && Self::stepped(*old(self), *final(self), x, p),
            },
    {
        match self.next_chunk() {
            Ok(Some(p)) => Some(Ok(p)),
            Ok(None) => None,
            Err(e) => Some(Err(e)),
        }
    }

    fn next_chunk(&mut self) -> (r: Result<Option<Option<Packet>>, Error>)
        requires
            old(self).wf(),
        ensures
            final(self).wf(),
            final(self).spec_infos() == old(self).spec_infos(),
            final(self).spec_streams() == old(self).spec_streams(),
            match avi_next(old(self).source(), old(self).spec_data_remaining() as int, old(self).spec_infos().len() as int) {
                None => r == Ok::<Option<Option<Packet>>, Error>(None),
                Some(Err(e)) => r == Err::<Option<Option<Packet>>, Error>(e),
                Some(Ok(x)) => r matches Ok(Some(p)) && Self::stepped(*old(self), *final(self), x, p),
            },
    {
        let ghost n = self.stream_info@.len() as int;
        let ghost goal = avi_next(self.reader.rest(), self.data_remaining as int, n);
        loop
            invariant
                avi_next(self.reader.rest(), self.data_remaining as int, n) == goal,
                goal == avi_next(old(self).source(), old(self).spec_data_remaining() as int, n),
                n == old(self).spec_infos().len(),
                self.stream_info == old(self).stream_info,
                self.streams == old(self).streams,
                self.packet_count == old(self).packet_count,
                self.packet_count * 8 + self.data_remaining <= u32::MAX,
                self.data_remaining <= old(self).data_remaining,
                ids_in_order(self.stream_info@),
            decreases self.reader.rest().len(),
        {
            let ghost s = self.reader.rest();
            if self.data_remaining < 8 {
                return Ok(Some(None));
            }
            if self.reader.remaining() < 4 {
                return Ok(Some(None));
            }
            let id_buf = self.reader.read_fourcc()?;
            let chunk_size = self.reader.read_u32_le()? as u64;
            proof {
                assert(s.skip(4).skip(4) =~= s.skip(8));
                assert(id_buf@ == s.take(4));
                assert(chunk_size == le32_value(s.skip(4)));
            }
            let ghost b = s.skip(8);
            self.data_remaining = self.data_remaining - 8;
            if let Some((stream_id, _is_video)) = self.chunk_id_to_stream(&id_buf) {
                if chunk_size > self.reader.remaining() as u64 {
                    return Err(Error::UnexpectedEof);
                }
                if chunk_size > self.data_remaining {
                    return Ok(None);
                }
                let data = self.reader.read_exact(chunk_size as usize)?;
                self.data_remaining = self.data_remaining - chunk_size;
                if chunk_size % 2 != 0 {
                    let _ = self.reader.read_u8();
                    if self.data_remaining > 0 {
                        self.data_remaining = self.data_remaining - 1;
                    }
                }
                let time = time_of(&self.stream_info[stream_id as usize]);
                let packet = Packet::new(data, stream_id, time).with_pts(self.packet_count as i64);
                self.packet_count = self.packet_count + 1;
                return Ok(Some(Some(packet)));
            }
            self.reader.skip(chunk_size)?;
            if chunk_size > self.data_remaining {
                return Ok(None);
            }
            self.data_remaining = self.data_remaining - chunk_size;
            if chunk_size % 2 != 0 && self.data_remaining > 0 {
                self.reader.skip(1)?;
                self.data_remaining = self.data_remaining - 1;
            }
        }
    }
}

} // verus!
