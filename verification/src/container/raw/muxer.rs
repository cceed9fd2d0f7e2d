use super::format::{RawPcmFormat, RawPcmMetadata};
use crate::error::Error;
use crate::io::{lemma_splice, splice, ByteWriter};
use crate::media::{Packet, Stream, StreamKind, Streams, Time};
use vstd::prelude::*;

verus! {

/// The muxer of headerless PCM data: the packets are written one after the other.
pub struct RawPcmMuxer {
    writer: ByteWriter,
    format: RawPcmFormat,
    streams: Streams,
    metadata: Option<RawPcmMetadata>,
    data_size: u32,
}

impl RawPcmMuxer {
    /// The sink.
    pub closed spec fn spec_writer(&self) -> ByteWriter {
        self.writer
    }

    /// The format of the data.
    pub closed spec fn spec_format(&self) -> RawPcmFormat {
        self.format
    }

    /// Bytes written so far.
    pub closed spec fn spec_data_size(&self) -> u32 {
        self.data_size
    }

    /// The tags given, which raw data has no room for.
    pub closed spec fn spec_metadata(&self) -> Option<RawPcmMetadata> {
        self.metadata
    }

    /// The streams.
    pub closed spec fn spec_streams(&self) -> Streams {
        self.streams
    }

    /// A muxer writing to `writer`; fails with `ZeroTimeBase` when the sample rate is zero.
    pub fn new(writer: ByteWriter, format: RawPcmFormat) -> (r: Result<Self, Error>)
        ensures
            format.sample_rate == 0 ==> r == Err::<Self, Error>(Error::ZeroTimeBase),
            format.sample_rate != 0 ==> (r matches Ok(m) && {
                &&& m.spec_writer() == writer
                &&& m.spec_format() == format
                &&& m.spec_data_size() == 0
                &&& m.spec_metadata() is None
                &&& m.spec_streams().items@.len() == 1
                &&& m.spec_streams().items@[0].id == 0
                &&& m.spec_streams().items@[0].kind == StreamKind::Audio
                &&& m.spec_streams().items@[0].codec@ == "pcm"@
                &&& m.spec_streams().items@[0].time == Time { num: 1, den: format.sample_rate }
            }),
    {
        let codec_name = String::from_str(format.to_codec_string());
        let time = match Time::checked(1, format.sample_rate) {
            Ok(t) => t,
            Err(e) => return Err(e),
        };
        let mut streams = Streams::new_empty();
        let stream_id = streams.next_id();
        let stream = Stream::new_audio(stream_id, codec_name, time);
        streams.add(stream);
        Ok(Self { writer, format, streams, metadata: None, data_size: 0 })
    }

    /// Sets the tags, which are not written.
    pub fn with_metadata(&mut self, metadata: Option<RawPcmMetadata>)
        ensures
            final(self).spec_metadata() == metadata,
            final(self).spec_writer() == old(self).spec_writer(),
            final(self).spec_data_size() == old(self).spec_data_size(),
            final(self).spec_format() == old(self).spec_format(),
    {
        self.metadata = metadata;
    }

    /// Writes the data of a packet; its length must keep the count of bytes within 32 bits.
    pub fn write_packet(&mut self, packet: Packet) -> (r: Result<(), Error>)
        requires
            old(self).spec_data_size() + packet.data@.len() <= u32::MAX,
        ensures
            old(self).spec_writer().position() + packet.data@.len() <= usize::MAX ==> {
                &&& r is Ok
                &&& final(self).spec_writer().contents() == splice(
                    old(self).spec_writer().contents(),
                    old(self).spec_writer().position() as int,
                    packet.data@,
                )
                &&& final(self).spec_writer().position() == old(self).spec_writer().position() + packet.data@.len()
                &&& final(self).spec_data_size() == old(self).spec_data_size() + packet.data@.len()
            },
            old(self).spec_writer().position() + packet.data@.len() > usize::MAX ==> r == Err::<(), Error>(
                Error::Overflow,
            ) && final(self).spec_writer() == old(self).spec_writer(),
            final(self).spec_format() == old(self).spec_format(),
    {
        match self.writer.write_all(packet.data.as_slice()) {
            Ok(()) => {},
            Err(e) => return Err(e),
        }
        self.data_size = self.data_size + packet.data.len() as u32;
        Ok(())
    }

    /// Nothing is left to write: the data is complete as it stands.
    pub fn finalize(&mut self) -> (r: Result<(), Error>)
        ensures
            r is Ok,
            final(self).spec_writer() == old(self).spec_writer(),
    {
        Ok(())
    }

    /// The streams.
    pub fn streams(&self) -> (s: &Streams)
        ensures
            *s == self.spec_streams(),
    {
        &self.streams
    }

    /// The sink.
    pub fn writer(&self) -> (w: &ByteWriter)
        ensures
            *w == self.spec_writer(),
    {
        &self.writer
    }
}

} // verus!
