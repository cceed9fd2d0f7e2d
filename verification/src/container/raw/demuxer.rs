use super::format::{RawPcmFormat, RawPcmMetadata};
use crate::container::chunked::{handed_result, next_chunk_len, pcm_chunks, read_pcm_packet, PcmCursor};
use crate::error::Error;
use crate::io::ByteReader;
use crate::media::{Packet, Stream, StreamKind, Streams, Time};
use vstd::prelude::*;

verus! {

/// The demuxer of headerless PCM data: all of the source is sample data.
pub struct RawPcmDemuxer {
    reader: ByteReader,
    format: RawPcmFormat,
    streams: Streams,
    metadata: RawPcmMetadata,
    cursor: PcmCursor,
    time: Time,
}

impl RawPcmDemuxer {
    /// The bytes not read yet.
    pub closed spec fn source(&self) -> Seq<u8> {
        self.reader.rest()
    }

    /// How far the demuxer is through the data.
    pub closed spec fn progress(&self) -> PcmCursor {
        self.cursor
    }

    /// The format the data is read as.
    pub closed spec fn spec_format(&self) -> RawPcmFormat {
        self.format
    }

    /// The time base of the packets.
    pub closed spec fn spec_time(&self) -> Time {
        self.time
    }

    /// The tags: none.
    pub closed spec fn spec_metadata(&self) -> RawPcmMetadata {
        self.metadata
    }

    /// The streams.
    pub closed spec fn spec_streams(&self) -> Streams {
        self.streams
    }

    /// The counters cannot overflow before the source runs out.
    pub closed spec fn wf(&self) -> bool {
        self.cursor.fits(self.reader.rest().len())
    }

    /// A demuxer that reads all of `reader` as `format`; fails with `ZeroTimeBase` when the
    /// sample rate is zero.
    pub fn new(reader: ByteReader, format: RawPcmFormat) -> (r: Result<Self, Error>)
        ensures
            format.sample_rate == 0 ==> r == Err::<Self, Error>(Error::ZeroTimeBase),
            format.sample_rate != 0 ==> (r matches Ok(d) && {
                &&& d.wf()
                &&& d.source() == reader.rest()
                &&& d.spec_format() == format
                &&& d.spec_time() == Time { num: 1, den: format.sample_rate }
                &&& d.progress() == PcmCursor { remaining_bytes: u64::MAX, samples_read: 0, packet_count: 0 }
                &&& d.spec_metadata().spec_fields().size() == 0
                &&& d.spec_streams().items@.len() == 1
                &&& d.spec_streams().items@[0].id == 0
                &&& d.spec_streams().items@[0].kind == StreamKind::Audio
                &&& d.spec_streams().items@[0].codec@ == "pcm"@
                &&& d.spec_streams().items@[0].time == Time { num: 1, den: format.sample_rate }
            }),
    {
        let codec_name = String::from_str(format.to_codec_string());
        let time = match Time::checked(1, format.sample_rate) {
            Ok(t) => t,
            Err(e) => return Err(e),
        };
        let mut streams = Streams::new_empty();
        let stream_id = streams.next_id();
        let stream = Stream::new_audio(stream_id, codec_name, time);
        streams.add(stream);
        let _ = reader.remaining();
        Ok(Self {
            reader,
            format,
            streams,
            metadata: RawPcmMetadata::new(),
            cursor: PcmCursor::new(u64::MAX),
            time,
        })
    }

    /// The next packet of data, or `None` once the source is exhausted. Needs frames of 1 to
    /// 65535 bytes, as the block alignment is computed in 16 bits.
    pub fn read_packet(&mut self) -> (r: Result<Option<Packet>, Error>)
        requires
            old(self).wf(),
            1 <= old(self).spec_format().spec_block_align() <= u16::MAX,
        ensures
            final(self).wf(),
            final(self).spec_format() == old(self).spec_format(),
            final(self).spec_time() == old(self).spec_time(),
            final(self).spec_metadata() == old(self).spec_metadata(),
            ({
                let k = next_chunk_len(
                    old(self).progress().remaining_bytes as int,
                    old(self).spec_format().spec_block_align(),
                    old(self).source().len() as int,
                );
                if old(self).progress().remaining_bytes == 0 || k == 0 {
                    r matches Ok(None) && final(self).progress() == old(self).progress()
                        && final(self).source() == old(self).source()
                } else {
                    &&& r matches Ok(Some(p))
                    &&& p.data@ == old(self).source().take(k)
                    &&& p.stream_id == 0
                    &&& p.time == old(self).spec_time()
                    &&& p.pts == old(self).progress().samples_read as i64
                    &&& !p.keyframe
                    &&& final(self).source() == old(self).source().skip(k)
                    &&& final(self).progress().remaining_bytes == old(self).progress().remaining_bytes - k
                    &&& final(self).progress().samples_read == old(self).progress().samples_read + k
                        / old(self).spec_format().spec_block_align()
                    &&& final(self).progress().packet_count == old(self).progress().packet_count + 1
                }
            }),
            pcm_chunks(
                old(self).source(),
                old(self).progress().remaining_bytes as int,
                old(self).spec_format().spec_block_align(),
            ) == handed_result(r) + pcm_chunks(
                final(self).source(),
                final(self).progress().remaining_bytes as int,
                old(self).spec_format().spec_block_align(),
            ),
            r matches Ok(None) ==> pcm_chunks(
                old(self).source(),
                old(self).progress().remaining_bytes as int,
                old(self).spec_format().spec_block_align(),
            ) == Seq::<Seq<u8>>::empty(),
    {
        let block_align = self.format.block_align();
        let bpf = self.format.bytes_per_frame();
        Ok(read_pcm_packet(&mut self.reader, &mut self.cursor, block_align, bpf, self.time))
    }

    /// The format the data is read as.
    pub fn format(&self) -> (f: RawPcmFormat)
        ensures
            f == self.spec_format(),
    {
        self.format
    }

    /// The tags: raw data holds none.
    pub fn metadata(&self) -> (m: &RawPcmMetadata)
        ensures
            *m == self.spec_metadata(),
    {
        &self.metadata
    }

    /// The streams.
    pub fn streams(&self) -> (s: &Streams)
        ensures
            *s == self.spec_streams(),
    {
        &self.streams
    }
}

} // verus!
