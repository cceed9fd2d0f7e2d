use super::format::{FlacFormat, FlacMetadata};
use crate::container::chunked::{handed_result, next_chunk_len, pcm_chunks, read_pcm_packet, PcmCursor};
use crate::container::wav::demuxer::check_fourcc;
use crate::error::Error;
use crate::io::{fcc, fourcc_value, ByteReader};
use crate::media::{Channels, Packet, Stream, StreamKind, Streams, Time};
use vstd::prelude::*;

verus! {

broadcast use vstd::std_specs::control_flow::group_control_flow_axioms;

/// The 24-bit big-endian size in the bytes 1 to 3 of a metadata block header.
pub open spec fn block_size(s: Seq<u8>) -> int {
    s[1] * 0x10000 + s[2] * 0x100 + s[3]
}

/// The sample rate a STREAMINFO body declares: the 20-bit field made of bytes 10 and 11 and
/// the high four bits of byte 12.
pub open spec fn streaminfo_rate(b: Seq<u8>) -> u32 {
    ((b[10] as u32) << 12u32) | ((b[11] as u32) << 4u32) | ((b[12] as u32) >> 4u32)
}

/// The number of channels a STREAMINFO body declares.
pub open spec fn streaminfo_channels(b: Seq<u8>) -> u8 {
    (((b[12] >> 1u8) & 7u8) + 1) as u8
}

/// The bits per sample a STREAMINFO body declares.
pub open spec fn streaminfo_depth(b: Seq<u8>) -> u16 {
    (((((b[12] & 1u8) << 4u8) | ((b[13] >> 4u8) & 0xfu8)) as u16) + 1) as u16
}

/// The format the demuxer takes from a STREAMINFO body.
pub open spec fn streaminfo_format(b: Seq<u8>) -> FlacFormat {
    FlacFormat {
        channels: Channels::spec_from_count(streaminfo_channels(b)),
        sample_rate: streaminfo_rate(b),
        bit_depth: streaminfo_depth(b),
    }
}

/// Reading a STREAMINFO block of `size` bytes whose body starts `b`.
pub open spec fn streaminfo_step(b: Seq<u8>, size: int) -> Result<(FlacFormat, Seq<u8>), Error> {
    if size < 34 {
        Err(Error::StreamInfoTooSmall)
    } else if b.len() < 34 {
        Err(Error::UnexpectedEof)
    } else if size - 34 > b.len() - 34 {
        Err(Error::UnexpectedEof)
    } else {
        Ok((streaminfo_format(b), b.skip(size)))
    }
}

/// Walking the metadata blocks up to the one marked last: the format of the last STREAMINFO
/// read, and the bytes after the last block.
pub open spec fn block_walk(s: Seq<u8>, f: FlacFormat) -> Result<(FlacFormat, Seq<u8>), Error>
    decreases s.len(),
{
    if s.len() < 4 {
        Err(Error::UnexpectedEof)
    } else {
        let is_last = s[0] & 0x80u8 != 0;
        let t = s[0] & 0x7fu8;
        let size = block_size(s);
        let b = s.skip(4);
        let step: Result<(FlacFormat, Seq<u8>), Error> = if t == 0 {
            streaminfo_step(b, size)
        } else if 1 <= t <= 6 {
            if size > b.len() {
                Err(Error::UnexpectedEof)
            } else {
                Ok((f, b.skip(size)))
            }
        } else {
            Err(Error::UnknownMetadataBlock(t))
        };
        match step {
            Err(e) => Err(e),
            Ok((f2, r)) => if is_last {
                Ok((f2, r))
            } else {
                proof {
                    lemma_streaminfo_step_shrinks(b, size);
                }
                block_walk(r, f2)
            },
        }
    }
}

/// A STREAMINFO block leaves no more than its body did.
pub proof fn lemma_streaminfo_step_shrinks(b: Seq<u8>, size: int)
    ensures
        streaminfo_step(b, size) matches Ok((_, r)) ==> r.len() <= b.len(),
{
}

/// Parsing a FLAC file up to its frames.
pub open spec fn flac_parse(s: Seq<u8>) -> Result<(FlacFormat, Seq<u8>), Error> {
    if s.len() < 4 {
        Err(Error::UnexpectedEof)
    } else if s.take(4) != fcc(0x66, 0x4c, 0x61, 0x43) {
        Err(Error::BadFourcc { expected: 0x664c6143, found: fourcc_value(s) })
    } else {
        block_walk(s.skip(4), FlacFormat { channels: Channels::Stereo, sample_rate: 44100, bit_depth: 16 })
    }
}

/// The FLAC demuxer. It reads the stream header, then hands out the frame data that follows
/// the last metadata block in packets.
pub struct FlacDemuxer {
    reader: ByteReader,
    format: FlacFormat,
    streams: Streams,
    metadata: FlacMetadata,
    cursor: PcmCursor,
    time: Time,
}

impl FlacDemuxer {
    /// The bytes not read yet.
    pub closed spec fn source(&self) -> Seq<u8> {
        self.reader.rest()
    }

    /// How far the demuxer is through the data.
    pub closed spec fn progress(&self) -> PcmCursor {
        self.cursor
    }

    /// The format read from the header.
    pub closed spec fn spec_format(&self) -> FlacFormat {
        self.format
    }

    /// The time base of the packets.
    pub closed spec fn spec_time(&self) -> Time {
        self.time
    }

    /// The tags.
    pub closed spec fn spec_metadata(&self) -> FlacMetadata {
        self.metadata
    }

    /// The streams.
    pub closed spec fn spec_streams(&self) -> Streams {
        self.streams
    }

    /// The counters cannot overflow before the source runs out.
    pub closed spec fn wf(&self) -> bool {
        self.cursor.fits(self.reader.rest().len())
    }

    /// Reads `fLaC` and the metadata blocks; fails on a bad header or a sample rate of zero.
    pub fn new(mut reader: ByteReader) -> (r: Result<Self, Error>)
        ensures
            match flac_parse(reader.rest()) {
                Err(e) => r == Err::<Self, Error>(e),
                Ok((f, rest)) => if f.sample_rate == 0 {
                    r == Err::<Self, Error>(Error::ZeroTimeBase)
                } else {
                    r matches Ok(d) && {
                        &&& d.wf()
                        &&& d.source() == rest
                        &&& d.spec_format() == f
                        &&& d.progress() == PcmCursor { remaining_bytes: rest.len() as u64, samples_read: 0, packet_count: 0 }
                        &&& d.spec_time() == Time { num: 1, den: f.sample_rate }
                        &&& d.spec_metadata().spec_fields().size() == 0
                        &&& d.spec_streams().items@.len() == 1
                        &&& d.spec_streams().items@[0].kind == StreamKind::Audio
                        &&& d.spec_streams().items@[0].codec@ == "flac"@
                    }
                },
            },
    {
        let (format, metadata, data_size) = Self::read_flac_and_find_data(&mut reader)?;
        let time = Time::checked(1, format.sample_rate)?;
        let codec = String::from_str(format.to_codec_string());
        let mut streams = Streams::new_empty();
        let stream_id = streams.next_id();
        let stream = Stream::new_audio(stream_id, codec, time);
        streams.add(stream);
        let _ = reader.remaining();
        Ok(Self { reader, format, streams, metadata, cursor: PcmCursor::new(data_size), time })
    }

    fn read_flac_and_find_data(reader: &mut ByteReader) -> (r: Result<(FlacFormat, FlacMetadata, u64), Error>)
        ensures
            match flac_parse(old(reader).rest()) {
                Err(e) => r == Err::<(FlacFormat, FlacMetadata, u64), Error>(e),
                Ok((f, rest)) => r matches Ok((f2, m, size)) && f2 == f && size == rest.len() && final(reader).rest() == rest
                    && m.spec_fields().size() == 0,
            },
    {
        let ghost s0 = reader.rest();
        check_fourcc(reader, 0x66, 0x4c, 0x61, 0x43)?;
        let mut format = FlacFormat::new(Channels::Stereo, 44100, 16);
        let metadata = FlacMetadata::new();
        loop
            invariant
                s0 == old(reader).rest(),
                s0.len() >= 4,
                s0.take(4) == fcc(0x66, 0x4c, 0x61, 0x43),
                block_walk(reader.rest(), format) == block_walk(s0.skip(4), FlacFormat {
                    channels: Channels::Stereo,
                    sample_rate: 44100,
                    bit_depth: 16,
                }),
                metadata.spec_fields().size() == 0,
            decreases reader.rest().len(),
        {
            let ghost s = reader.rest();
            if reader.remaining() < 4 {
                return Err(Error::UnexpectedEof);
            }
            let last_block_byte = reader.read_u8()?;
            let is_last = (last_block_byte & 0x80) != 0;
            let block_type = last_block_byte & 0x7f;
            let size_bytes = reader.read_exact(3)?;
            let block_size = (size_bytes[0] as u64) * 0x10000 + (size_bytes[1] as u64) * 0x100 + size_bytes[2] as u64;
            assert(s.skip(1).skip(3) =~= s.skip(4));
            assert(block_size == crate::container::flac::demuxer::block_size(s));
            if block_type == 0 {
                Self::read_streaminfo(reader, block_size, &mut format)?;
            } else if 1 <= block_type && block_type <= 6 {
                reader.skip(block_size)?;
            } else {
                return Err(Error::UnknownMetadataBlock(block_type));
            }
            if is_last {
                let data_size = Self::calculate_remaining_size(reader);
                return Ok((format, metadata, data_size));
            }
        }
    }

    fn read_streaminfo(reader: &mut ByteReader, size: u64, format: &mut FlacFormat) -> (r: Result<(), Error>)
        ensures
            match streaminfo_step(old(reader).rest(), size as int) {
                Err(e) => r == Err::<(), Error>(e),
                Ok((f, rest)) => r is Ok && *final(format) == f && final(reader).rest() == rest,
            },
    {
        let ghost b = reader.rest();
        if size < 34 {
            return Err(Error::StreamInfoTooSmall);
        }
        let buf = reader.read_exact(34)?;
        let sample_rate = ((buf[10] as u32) << 12u32) | ((buf[11] as u32) << 4u32) | ((buf[12] as u32) >> 4u32);
        let b12 = buf[12];
        let channels_bits = (b12 >> 1u8) & 7u8;
        assert(channels_bits <= 7) by (bit_vector)
            requires
                channels_bits == (b12 >> 1u8) & 7u8,
        ;
        let channels = Channels::from_count(channels_bits + 1);
        let bit_depth_bits = ((buf[12] & 1u8) << 4u8) | ((buf[13] >> 4u8) & 0xfu8);
        let bit_depth = (bit_depth_bits as u16) + 1;
        *format = FlacFormat::new(channels, sample_rate, bit_depth);
        if size > 34 {
            reader.skip(size - 34)?;
            assert(b.skip(34).skip(size - 34) =~= b.skip(size as int));
        }
        Ok(())
    }

    /// The size of the frame data: all the bytes after the last metadata block.
    fn calculate_remaining_size(reader: &mut ByteReader) -> (n: u64)
        ensures
            n == old(reader).rest().len(),
            *final(reader) == *old(reader),
    {
        reader.remaining() as u64
    }

    /// The next packet of frame data, or `None` at its end.
    /// Needs frames of 1 to 65535 bytes.
    pub fn read_packet(&mut self) -> (r: Result<Option<Packet>, Error>)
        requires
            old(self).wf(),
            1 <= old(self).spec_format().spec_block_align() <= u16::MAX,
        ensures
            final(self).wf(),
            final(self).spec_format() == old(self).spec_format(),
            final(self).spec_time() == old(self).spec_time(),
            ({
                let k = next_chunk_len(
                    old(self).progress().remaining_bytes as int,
                    old(self).spec_format().spec_block_align(),
                    old(self).source().len() as int,
                );
                if old(self).progress().remaining_bytes == 0 || k == 0 {
                    r matches Ok(None) && final(self).progress() == old(self).progress()
                        && final(self).source() == old(self).source()
                } else {
                    &&& r matches Ok(Some(p))
                    &&& p.data@ == old(self).source().take(k)
                    &&& p.pts == old(self).progress().samples_read as i64
                    &&& final(self).source() == old(self).source().skip(k)
                    &&& final(self).progress().remaining_bytes == old(self).progress().remaining_bytes - k
                }
            }),
            pcm_chunks(
                old(self).source(),
                old(self).progress().remaining_bytes as int,
                old(self).spec_format().spec_block_align(),
            ) == handed_result(r) + pcm_chunks(
                final(self).source(),
                final(self).progress().remaining_bytes as int,
                old(self).spec_format().spec_block_align(),
            ),
            r matches Ok(None) ==> pcm_chunks(
                old(self).source(),
                old(self).progress().remaining_bytes as int,
                old(self).spec_format().spec_block_align(),
            ) == Seq::<Seq<u8>>::empty(),
    {
        let block_align = self.format.block_align();
        let bpf = self.format.bytes_per_frame();
        Ok(read_pcm_packet(&mut self.reader, &mut self.cursor, block_align, bpf, self.time))
    }

    /// The format read from the header.
    pub fn format(&self) -> (f: FlacFormat)
        ensures
            f == self.spec_format(),
    {
        self.format
    }

    /// The tags.
    pub fn metadata(&self) -> (m: &FlacMetadata)
        ensures
            *m == self.spec_metadata(),
    {
        &self.metadata
    }

    /// The streams.
    pub fn streams(&self) -> (s: &Streams)
        ensures
            *s == self.spec_streams(),
    {
        &self.streams
    }
}

} // verus!
