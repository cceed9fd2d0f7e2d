use super::format::WavFormat;
use super::header::WavHeader;
use crate::container::chunked::{handed_result, next_chunk_len, pcm_chunks, read_pcm_packet, PcmCursor};
use crate::error::Error;
use crate::io::{fcc, fourcc_is, fourcc_to_u32, fourcc_value, le16_value, le32_value, ByteReader};
use crate::media::{Channels, Packet, Stream, Streams, Time};
use crate::metadata::Metadata;
use crate::text::{string_from_utf8_lossy, trim_trailing_zeros, trim_zeros, utf8_lossy};
use vstd::prelude::*;

verus! {

broadcast use vstd::std_specs::control_flow::group_control_flow_axioms;

/// The tag key that an INFO sub-chunk id stands for.
pub open spec fn info_key(id: Seq<u8>) -> Option<Seq<char>> {
    if id == fcc(0x49, 0x41, 0x52, 0x54) {
        Some("artist"@)
    } else if id == fcc(0x49, 0x4e, 0x41, 0x4d) {
        Some("title"@)
    } else if id == fcc(0x49, 0x43, 0x4f, 0x4d) {
        Some("comment"@)
    } else if id == fcc(0x49, 0x43, 0x4f, 0x50) {
        Some("copyright"@)
    } else if id == fcc(0x49, 0x53, 0x46, 0x54) {
        Some("software"@)
    } else if id == fcc(0x49, 0x47, 0x4e, 0x52) {
        Some("genre"@)
    } else if id == fcc(0x49, 0x54, 0x52, 0x4b) {
        Some("track"@)
    } else {
        None
    }
}

/// The value of the last tag with `key`, if any.
pub open spec fn last_tag(tags: Seq<(Seq<char>, Seq<char>)>, key: Seq<char>) -> Option<Seq<char>>
    decreases tags.len(),
{
    if tags.len() == 0 {
        None
    } else if tags.last().0 == key {
        Some(tags.last().1)
    } else {
        last_tag(tags.drop_last(), key)
    }
}

/// The header a `fmt ` chunk body `b` holds.
pub open spec fn fmt_header(b: Seq<u8>) -> WavHeader {
    WavHeader {
        format_code: le16_value(b) as u16,
        channels: Channels::spec_from_count((le16_value(b.skip(2)) as u16) as u8),
        sample_rate: le32_value(b.skip(4)) as u32,
        byte_rate: le32_value(b.skip(8)) as u32,
        block_align: le16_value(b.skip(12)) as u16,
        bits_per_sample: le16_value(b.skip(14)) as u16,
    }
}

/// Reading a `fmt ` chunk of `size` bytes whose body starts `b`: the header and what follows.
pub open spec fn fmt_step(b: Seq<u8>, size: int) -> Result<(WavHeader, Seq<u8>), Error> {
    if size < 16 {
        Err(Error::FmtChunkTooSmall)
    } else if b.len() < 16 {
        Err(Error::UnexpectedEof)
    } else if size - 16 > b.len() - 16 {
        Err(Error::UnexpectedEof)
    } else {
        Ok((fmt_header(b), b.skip(size)))
    }
}

/// Reading the INFO sub-chunks of a LIST chunk of `size` bytes from `pos` bytes into it:
/// the tags read, in order, and what follows the last sub-chunk read.
pub open spec fn info_walk(s: Seq<u8>, pos: int, size: int, tags: Seq<(Seq<char>, Seq<char>)>) -> Result<
    (Seq<(Seq<char>, Seq<char>)>, Seq<u8>),
    Error,
>
    decreases s.len(),
{
    if pos + 8 > size {
        Ok((tags, s))
    } else if s.len() < 8 {
        Err(Error::UnexpectedEof)
    } else {
        let n = le32_value(s.skip(4));
        if n > s.len() - 8 {
            Err(Error::UnexpectedEof)
        } else {
            let tags2 = match info_key(s.take(4)) {
                Some(k) => tags.push((k, utf8_lossy(trim_zeros(s.skip(8).take(n))))),
                None => tags,
            };
            let s2 = s.skip(8 + n);
            if n % 2 == 1 {
                if s2.len() < 1 {
                    Err(Error::UnexpectedEof)
                } else {
                    info_walk(s2.skip(1), pos + 8 + n + 1, size, tags2)
                }
            } else {
                info_walk(s2, pos + 8 + n, size, tags2)
            }
        }
    }
}

/// Reading a LIST chunk of `size` bytes whose body starts `b`. A chunk shorter than four
/// bytes is taken as empty and its body is not skipped; a list that is not INFO is skipped.
pub open spec fn list_step(b: Seq<u8>, size: int, tags: Seq<(Seq<char>, Seq<char>)>) -> Result<
    (Seq<(Seq<char>, Seq<char>)>, Seq<u8>),
    Error,
> {
    if size < 4 {
        Ok((tags, b))
    } else if b.len() < 4 {
        Err(Error::UnexpectedEof)
    } else if b.take(4) != fcc(0x49, 0x4e, 0x46, 0x4f) {
        if size - 4 > b.len() - 4 {
            Err(Error::UnexpectedEof)
        } else {
            Ok((tags, b.skip(size)))
        }
    } else {
        info_walk(b.skip(4), 4, size, tags)
    }
}

pub proof fn lemma_info_walk_shrinks(s: Seq<u8>, pos: int, size: int, tags: Seq<(Seq<char>, Seq<char>)>)
    ensures
        info_walk(s, pos, size, tags) matches Ok((_, r)) ==> r.len() <= s.len(),
    decreases s.len(),
{
    if pos + 8 <= size && s.len() >= 8 {
        let n = le32_value(s.skip(4));
        if n <= s.len() - 8 {
            let tags2 = match info_key(s.take(4)) {
                Some(k) => tags.push((k, utf8_lossy(trim_zeros(s.skip(8).take(n))))),
                None => tags,
            };
            let s2 = s.skip(8 + n);
            if n % 2 == 1 {
                if s2.len() >= 1 {
                    lemma_info_walk_shrinks(s2.skip(1), pos + 8 + n + 1, size, tags2);
                }
            } else {
                lemma_info_walk_shrinks(s2, pos + 8 + n, size, tags2);
            }
        }
    }
}

pub proof fn lemma_list_step_shrinks(b: Seq<u8>, size: int, tags: Seq<(Seq<char>, Seq<char>)>)
    ensures
        list_step(b, size, tags) matches Ok((_, r)) ==> r.len() <= b.len(),
{
    if size >= 4 && b.len() >= 4 && b.take(4) == fcc(0x49, 0x4e, 0x46, 0x4f) {
        lemma_info_walk_shrinks(b.skip(4), 4, size, tags);
    }
}

/// Walking the chunks after `WAVE` up to the `data` chunk: the last `fmt ` header read, the
/// INFO tags read, the size the `data` chunk declares, and the bytes after its header.
pub open spec fn chunk_walk(s: Seq<u8>, h: WavHeader, tags: Seq<(Seq<char>, Seq<char>)>) -> Result<
    (WavHeader, Seq<(Seq<char>, Seq<char>)>, u64, Seq<u8>),
    Error,
>
    decreases s.len(),
{
    if s.len() < 8 {
        Err(Error::UnexpectedEof)
    } else {
        let id = s.take(4);
        let size = le32_value(s.skip(4));
        let b = s.skip(8);
        if id == fcc(0x66, 0x6d, 0x74, 0x20) {
            match fmt_step(b, size) {
                Err(e) => Err(e),
                Ok((h2, r)) => chunk_walk(r, h2, tags),
            }
        } else if id == fcc(0x4c, 0x49, 0x53, 0x54) {
            match list_step(b, size, tags) {
                Err(e) => Err(e),
                Ok((t2, r)) => {
                    proof {
                        lemma_list_step_shrinks(b, size, tags);
                    }
                    chunk_walk(r, h, t2)
                },
            }
        } else if id == fcc(0x64, 0x61, 0x74, 0x61) {
            Ok((h, tags, size as u64, b))
        } else if size > b.len() {
            Err(Error::UnexpectedEof)
        } else {
            chunk_walk(b.skip(size), h, tags)
        }
    }
}

/// Parsing a whole RIFF/WAVE file up to its sample data.
pub open spec fn wav_parse(s: Seq<u8>) -> Result<(WavHeader, Seq<(Seq<char>, Seq<char>)>, u64, Seq<u8>), Error> {
    if s.len() < 4 {
        Err(Error::UnexpectedEof)
    } else if s.take(4) != fcc(0x52, 0x49, 0x46, 0x46) {
        Err(Error::BadFourcc { expected: 0x52494646, found: fourcc_value(s) })
    } else if s.len() < 12 {
        Err(Error::UnexpectedEof)
    } else if s.skip(8).take(4) != fcc(0x57, 0x41, 0x56, 0x45) {
        Err(Error::BadFourcc { expected: 0x57415645, found: fourcc_value(s.skip(8)) })
    } else {
        chunk_walk(s.skip(12), WavHeader::spec_default(), seq![])
    }
}

/// Reads a four-character code and checks that it is `b0 b1 b2 b3`.
pub fn check_fourcc(reader: &mut ByteReader, b0: u8, b1: u8, b2: u8, b3: u8) -> (r: Result<(), Error>)
    ensures
        old(reader).rest().len() < 4 ==> r == Err::<(), Error>(Error::UnexpectedEof),
        old(reader).rest().len() >= 4 && old(reader).rest().take(4) != fcc(b0, b1, b2, b3) ==> r == Err::<
            (),
            Error,
        >(Error::BadFourcc { expected: fourcc_value(fcc(b0, b1, b2, b3)), found: fourcc_value(old(reader).rest()) }),
        old(reader).rest().len() >= 4 && old(reader).rest().take(4) == fcc(b0, b1, b2, b3) ==> r is Ok
            && final(reader).rest() == old(reader).rest().skip(4),
{
    let actual = reader.read_fourcc()?;
    if !fourcc_is(actual, b0, b1, b2, b3) {
        let expected = [b0, b1, b2, b3];
        assert(expected@ =~= fcc(b0, b1, b2, b3));
        return Err(Error::BadFourcc { expected: fourcc_to_u32(expected), found: fourcc_to_u32(actual) });
    }
    Ok(())
}

/// The tag key of an INFO sub-chunk id.
fn info_key_of(id: [u8; 4]) -> (r: Option<&'static str>)
    ensures
        match info_key(id@) {
            Some(k) => r matches Some(s) && s@ == k,
            None => r is None,
        },
{
    if fourcc_is(id, 0x49, 0x41, 0x52, 0x54) {
        Some("artist")
    } else if fourcc_is(id, 0x49, 0x4e, 0x41, 0x4d) {
        Some("title")
    } else if fourcc_is(id, 0x49, 0x43, 0x4f, 0x4d) {
        Some("comment")
    } else if fourcc_is(id, 0x49, 0x43, 0x4f, 0x50) {
        Some("copyright")
    } else if fourcc_is(id, 0x49, 0x53, 0x46, 0x54) {
        Some("software")
    } else if fourcc_is(id, 0x49, 0x47, 0x4e, 0x52) {
        Some("genre")
    } else if fourcc_is(id, 0x49, 0x54, 0x52, 0x4b) {
        Some("track")
    } else {
        None
    }
}

/// What opening a WAVE demuxer on `src` gives: the error of the header where it does not parse
/// or does not validate; else a demuxer at the first sample, with the format, the tags and the
/// one audio stream that the header declares.
pub open spec fn wav_opened(src: Seq<u8>, r: Result<WavDemuxer, Error>) -> bool {
    match wav_parse(src) {
        Err(e) => r == Err::<WavDemuxer, Error>(e),
        Ok((h, tags, size, rest)) => match h.spec_validation_error() {
            Some(e) => r == Err::<WavDemuxer, Error>(e),
            None => r matches Ok(d) && {
                &&& d.wf()
                &&& d.source() == rest
                &&& d.spec_format() == h.spec_to_format()
                &&& d.progress() == PcmCursor { remaining_bytes: size, samples_read: 0, packet_count: 0 }
                &&& d.spec_time() == Time { num: 1, den: h.sample_rate }
                &&& forall|k: Seq<char>| #[trigger] d.spec_metadata().get_spec(k) == last_tag(tags, k)
                &&& d.spec_streams().items@.len() == 1
                &&& d.spec_streams().items@[0].id == 0
                &&& d.spec_streams().items@[0].kind == crate::media::StreamKind::Audio
                &&& d.spec_streams().items@[0].codec@ == h.spec_to_format().spec_codec()
                &&& d.spec_streams().items@[0].time == Time { num: 1, den: h.sample_rate }
            },
        },
    }
}

/// The WAVE demuxer: reads the header and tags, then hands out the sample data in packets.
pub struct WavDemuxer {
    reader: ByteReader,
    format: WavFormat,
    streams: Streams,
    metadata: Metadata,
    cursor: PcmCursor,
    time: Time,
}

impl WavDemuxer {
    /// The bytes not read yet.
    pub closed spec fn source(&self) -> Seq<u8> {
        self.reader.rest()
    }

    /// How far the demuxer is through the sample data.
    pub closed spec fn progress(&self) -> PcmCursor {
        self.cursor
    }

    /// The stream format.
    pub closed spec fn spec_format(&self) -> WavFormat {
        self.format
    }

    /// The time base of the packets.
    pub closed spec fn spec_time(&self) -> Time {
        self.time
    }

    /// The tags read from the file.
    pub closed spec fn spec_metadata(&self) -> Metadata {
        self.metadata
    }

    /// The streams of the file.
    pub closed spec fn spec_streams(&self) -> Streams {
        self.streams
    }

    /// The counters cannot overflow before the source runs out.
    pub closed spec fn wf(&self) -> bool {
        self.cursor.fits(self.reader.rest().len())
    }

    /// Parses the RIFF header and the chunks up to `data`, then checks the `fmt ` header.
    pub fn new(mut reader: ByteReader) -> (r: Result<Self, Error>)
        ensures
            wav_opened(reader.rest(), r),
    {
        let (header, metadata, data_size) = Self::read_wav_and_find_data(&mut reader)?;
        header.validate()?;
        let mut streams = Streams::new_empty();
        let format = header.to_format();
        let time = Time::checked(1, header.sample_rate)?;
        let codec = String::from_str(format.to_codec_string());
        let stream_id = streams.next_id();
        let stream = Stream::new_audio(stream_id, codec, time);
        streams.add(stream);
        let _ = reader.remaining();
        let d = WavDemuxer { reader, format, streams, metadata, cursor: PcmCursor::new(data_size), time };
        assert(d.streams.items@.len() == 1);
        Ok(d)
    }

    fn read_wav_and_find_data(reader: &mut ByteReader) -> (r: Result<(WavHeader, Metadata, u64), Error>)
        ensures
            match wav_parse(old(reader).rest()) {
                Err(e) => r == Err::<(WavHeader, Metadata, u64), Error>(e),
                Ok((h, tags, size, rest)) => r matches Ok((h2, m, sz)) && {
                    &&& h2 == h
                    &&& sz == size
                    &&& final(reader).rest() == rest
                    &&& forall|k: Seq<char>| #[trigger] m.get_spec(k) == last_tag(tags, k)
                },
            },
    {
        let ghost s0 = reader.rest();
        proof {
            if s0.len() >= 8 {
                assert(s0.skip(4).skip(4) =~= s0.skip(8));
            }
            if s0.len() >= 12 {
                assert(s0.skip(8).skip(4) =~= s0.skip(12));
            }
        }
        check_fourcc(reader, 0x52, 0x49, 0x46, 0x46)?;
        let _file_size = reader.read_u32_le()?;
        check_fourcc(reader, 0x57, 0x41, 0x56, 0x45)?;
        let mut header = WavHeader::default();
        let mut metadata = Metadata::new();
        let ghost mut tags: Seq<(Seq<char>, Seq<char>)> = seq![];
        loop
            invariant
                s0 == old(reader).rest(),
                chunk_walk(reader.rest(), header, tags) == chunk_walk(s0.skip(12), WavHeader::spec_default(), seq![]),
                wav_parse(s0) == chunk_walk(s0.skip(12), WavHeader::spec_default(), seq![]),
                forall|k: Seq<char>| #[trigger] metadata.get_spec(k) == last_tag(tags, k),
            decreases reader.rest().len(),
        {
            let ghost s = reader.rest();
            let chunk_id = reader.read_fourcc()?;
            let chunk_size = reader.read_u32_le()? as u64;
            assert(s.skip(4).skip(4) =~= s.skip(8));
            let ghost b = s.skip(8);
            if fourcc_is(chunk_id, 0x66, 0x6d, 0x74, 0x20) {
                Self::read_fmt_chunk(reader, chunk_size, &mut header)?;
            } else if fourcc_is(chunk_id, 0x4c, 0x49, 0x53, 0x54) {
                proof {
                    lemma_list_step_shrinks(b, chunk_size as int, tags);
                }
                let ghost tags0 = tags;
                let t2 = Self::read_list_chunk(reader, chunk_size, &mut metadata, Ghost(tags))?;
                proof {
                    tags = t2@;
                }
            } else if fourcc_is(chunk_id, 0x64, 0x61, 0x74, 0x61) {
                return Ok((header, metadata, chunk_size));
            } else {
                reader.skip(chunk_size)?;
            }
        }
    }

    fn read_fmt_chunk(reader: &mut ByteReader, chunk_size: u64, header: &mut WavHeader) -> (r: Result<(), Error>)
        ensures
            match fmt_step(old(reader).rest(), chunk_size as int) {
                Err(e) => r == Err::<(), Error>(e),
                Ok((h, rest)) => r is Ok && *final(header) == h && final(reader).rest() == rest,
            },
    {
        let ghost b = reader.rest();
        if chunk_size < 16 {
            return Err(Error::FmtChunkTooSmall);
        }
        if reader.remaining() < 16 {
            return Err(Error::UnexpectedEof);
        }
        header.format_code = reader.read_u16_le()?;
        header.channels = Channels::from_count(reader.read_u16_le()? as u8);
        header.sample_rate = reader.read_u32_le()?;
        header.byte_rate = reader.read_u32_le()?;
        header.block_align = reader.read_u16_le()?;
        header.bits_per_sample = reader.read_u16_le()?;
        assert(b.skip(2).skip(2) =~= b.skip(4));
        assert(b.skip(4).skip(4) =~= b.skip(8));
        assert(b.skip(8).skip(4) =~= b.skip(12));
        assert(b.skip(12).skip(2) =~= b.skip(14));
        assert(b.skip(14).skip(2) =~= b.skip(16));
        if chunk_size > 16 {
            reader.skip(chunk_size - 16)?;
            assert(b.skip(16).skip(chunk_size - 16) =~= b.skip(chunk_size as int));
        }
        Ok(())
    }

    fn read_list_chunk(
        reader: &mut ByteReader,
        chunk_size: u64,
        metadata: &mut Metadata,
        Ghost(tags): Ghost<Seq<(Seq<char>, Seq<char>)>>,
    ) -> (r: Result<Ghost<Seq<(Seq<char>, Seq<char>)>>, Error>)
        requires
            chunk_size <= u32::MAX,
            forall|k: Seq<char>| #[trigger] old(metadata).get_spec(k) == last_tag(tags, k),
        ensures
            match list_step(old(reader).rest(), chunk_size as int, tags) {
                Err(e) => r == Err::<Ghost<Seq<(Seq<char>, Seq<char>)>>, Error>(e),
                Ok((t2, rest)) => r matches Ok(g) && g@ == t2 && final(reader).rest() == rest
                    && forall|k: Seq<char>| #[trigger] final(metadata).get_spec(k) == last_tag(t2, k),
            },
    {
        let ghost b = reader.rest();
        if chunk_size < 4 {
            return Ok(Ghost(tags));
        }
        let form_type = reader.read_fourcc()?;
        if !fourcc_is(form_type, 0x49, 0x4e, 0x46, 0x4f) {
            reader.skip(chunk_size - 4)?;
            assert(b.skip(4).skip(chunk_size - 4) =~= b.skip(chunk_size as int));
            return Ok(Ghost(tags));
        }
        let ghost mut cur = tags;
        let mut pos: u64 = 4;
        while chunk_size >= 8 && pos <= chunk_size - 8
            invariant
                b == old(reader).rest(),
                b.len() >= 4,
                b.take(4) == fcc(0x49, 0x4e, 0x46, 0x4f),
                chunk_size >= 4,
                info_walk(reader.rest(), pos as int, chunk_size as int, cur) == info_walk(
                    b.skip(4),
                    4,
                    chunk_size as int,
                    tags,
                ),
                pos <= 0x2_0000_0000,
                chunk_size <= u32::MAX,
                forall|k: Seq<char>| #[trigger] metadata.get_spec(k) == last_tag(cur, k),
            decreases reader.rest().len(),
        {
            let ghost s = reader.rest();
            let id = reader.read_fourcc()?;
            let size = reader.read_u32_le()? as u64;
            pos = pos + 8;
            assert(s.skip(4).skip(4) =~= s.skip(8));
            let data = reader.read_exact(size as usize)?;
            pos = pos + size;
            assert(s.skip(8).skip(size as int) =~= s.skip(8 + size));
            let trimmed = trim_trailing_zeros(data.as_slice());
            let value = string_from_utf8_lossy(trimmed.as_slice());
            let ghost before = cur;
            match info_key_of(id) {
                Some(key) => {
                    metadata.set(key, value);
                    proof {
                        cur = cur.push((key@, value@));
                        assert forall|k: Seq<char>| #[trigger] metadata.get_spec(k) == last_tag(cur, k) by {
                            assert(cur.drop_last() =~= before);
                        }
                    }
                },
                None => {},
            }
            if size % 2 == 1 {
                reader.read_u8()?;
                pos = pos + 1;
            }
        }
        Ok(Ghost(cur))
    }

    /// The next packet of sample data, or `None` at its end. Needs frames of 1 to 65535
    /// bytes, as the block alignment is computed in 16 bits.
    pub fn read_packet(&mut self) -> (r: Result<Option<Packet>, Error>)
        requires
            old(self).wf(),
            1 <= old(self).spec_format().spec_block_align() <= u16::MAX,
        ensures
            final(self).wf(),
            final(self).spec_format() == old(self).spec_format(),
            final(self).spec_time() == old(self).spec_time(),
            ({
                let k = next_chunk_len(
                    old(self).progress().remaining_bytes as int,
                    old(self).spec_format().spec_block_align(),
                    old(self).source().len() as int,
                );
                if old(self).progress().remaining_bytes == 0 || k == 0 {
                    r matches Ok(None) && final(self).progress() == old(self).progress()
                        && final(self).source() == old(self).source()
                } else {
                    &&& r matches Ok(Some(p))
                    &&& p.data@ == old(self).source().take(k)
                    &&& p.stream_id == 0
                    &&& p.time == old(self).spec_time()
                    &&& p.pts == old(self).progress().samples_read as i64
                    &&& !p.keyframe
                    &&& final(self).source() == old(self).source().skip(k)
                    &&& final(self).progress().remaining_bytes == old(self).progress().remaining_bytes - k
                    &&& final(self).progress().samples_read == old(self).progress().samples_read + k
                        / old(self).spec_format().spec_block_align()
                    &&& final(self).progress().packet_count == old(self).progress().packet_count + 1
                }
            }),
            pcm_chunks(
                old(self).source(),
                old(self).progress().remaining_bytes as int,
                old(self).spec_format().spec_block_align(),
            ) == handed_result(r) + pcm_chunks(
                final(self).source(),
                final(self).progress().remaining_bytes as int,
                old(self).spec_format().spec_block_align(),
            ),
            r matches Ok(None) ==> pcm_chunks(
                old(self).source(),
                old(self).progress().remaining_bytes as int,
                old(self).spec_format().spec_block_align(),
            ) == Seq::<Seq<u8>>::empty(),
    {
        let block_align = self.format.block_align();
        let bpf = self.format.bytes_per_frame();
        Ok(read_pcm_packet(&mut self.reader, &mut self.cursor, block_align, bpf, self.time))
    }

    /// The stream format.
    pub fn format(&self) -> (f: WavFormat)
        ensures
            f == self.spec_format(),
    {
        self.format
    }

    /// The tags read from the file.
    pub fn metadata(&self) -> (m: &Metadata)
        ensures
            *m == self.spec_metadata(),
    {
        &self.metadata
    }

    /// The streams of the file.
    pub fn streams(&self) -> (s: &Streams)
        ensures
            *s == self.spec_streams(),
    {
        &self.streams
    }
}

} // verus!
