use super::format::{FlacFormat, FlacMetadata};
use crate::error::Error;
use crate::io::{fcc, lemma_splice, push_all, splice, ByteWriter};
use crate::media::{Packet, Stream, StreamKind, Streams, Time};
use vstd::prelude::*;

verus! {

broadcast use vstd::std_specs::control_flow::group_control_flow_axioms;

/// Byte 12 of the STREAMINFO body the muxer writes: the low four bits of the sample rate, the
/// channel count less one, and the top bit of the bit depth less one.
pub open spec fn streaminfo_byte12(sample_rate: u32, ch: u8, bd: u8) -> u8 {
    (((sample_rate & 0xfu32) << 4u32) as u8 | ((ch & 7u8) << 1u8)) | ((bd >> 4u8) & 1u8)
}

/// The STREAMINFO body the muxer writes: block sizes 16 and 65535, frame sizes unknown, the
/// sample rate, channels and bit depth, and a zero sample count and checksum.
pub open spec fn streaminfo_bytes(f: FlacFormat) -> Seq<u8> {
    let sr = f.sample_rate;
    let ch = (f.channels.spec_count() - 1) as u8;
    let bd = (f.bit_depth - 1) as u8;
    seq![
        0u8,
        16u8,
        0xffu8,
        0xffu8,
        0u8,
        0u8,
        0u8,
        0u8,
        0u8,
        0u8,
        ((sr >> 12u32) & 0xffu32) as u8,
        ((sr >> 4u32) & 0xffu32) as u8,
        streaminfo_byte12(sr, ch, bd),
        ((bd & 0xfu8) << 4u8) as u8,
    ] + Seq::new(20, |i: int| 0u8)
}

/// The header the muxer writes: `fLaC` and one STREAMINFO block marked last.
pub open spec fn flac_header_bytes(f: FlacFormat) -> Seq<u8> {
    fcc(0x66, 0x4c, 0x61, 0x43) + seq![0x80u8, 0u8, 0u8, 34u8] + streaminfo_bytes(f)
}

/// What the header needs: at least one channel and a bit depth of at least one.
pub open spec fn flac_header_writable(f: FlacFormat) -> bool {
    f.channels.spec_count() >= 1 && f.bit_depth >= 1
}

/// Builds the header bytes of a format.
pub fn build_flac_header(format: &FlacFormat) -> (v: Vec<u8>)
    requires
        flac_header_writable(*format),
    ensures
        v@ == flac_header_bytes(*format),
{
    let mut streaminfo: Vec<u8> = Vec::new();
    push_all(&mut streaminfo, &[0, 16, 0xff, 0xff, 0, 0, 0, 0, 0, 0]);
    let sample_rate = format.sample_rate;
    let channels = (format.channels.count() as u8) - 1;
    let bit_depth = (format.bit_depth - 1) as u8;
    streaminfo.push(((sample_rate >> 12u32) & 0xffu32) as u8);
    streaminfo.push(((sample_rate >> 4u32) & 0xffu32) as u8);
    let mut b12 = ((sample_rate & 0xfu32) << 4u32) as u8 | ((channels & 7u8) << 1u8);
    b12 = b12 | ((bit_depth >> 4u8) & 1u8);
    streaminfo.push(b12);
    streaminfo.push(((bit_depth & 0xfu8) << 4u8) as u8);
    let mut i: usize = 0;
    while i < 20
        invariant
            i <= 20,
            streaminfo@.len() == 14 + i,
            forall|j: int| 14 <= j < 14 + i ==> streaminfo@[j] == 0u8,
            streaminfo@.take(14) == seq![
                0u8,
                16u8,
                0xffu8,
                0xffu8,
                0u8,
                0u8,
                0u8,
                0u8,
                0u8,
                0u8,
                ((sample_rate >> 12u32) & 0xffu32) as u8,
                ((sample_rate >> 4u32) & 0xffu32) as u8,
                streaminfo_byte12(sample_rate, channels, bit_depth),
                ((bit_depth & 0xfu8) << 4u8) as u8,
            ],
        decreases 20 - i,
    {
        streaminfo.push(0);
        i = i + 1;
    }
    assert(streaminfo@ =~= streaminfo_bytes(*format));
    let mut v: Vec<u8> = Vec::new();
    push_all(&mut v, &[0x66, 0x4c, 0x61, 0x43]);
    push_all(&mut v, &[0x80, 0, 0, 34]);
    push_all(&mut v, streaminfo.as_slice());
    assert(v@ =~= flac_header_bytes(*format));
    v
}

/// The FLAC muxer: writes the stream header, then the packets as they come.
pub struct FlacMuxer {
    writer: ByteWriter,
    format: FlacFormat,
    streams: Streams,
    metadata: Option<FlacMetadata>,
    data_size: u32,
}

impl FlacMuxer {
    /// The sink.
    pub closed spec fn spec_writer(&self) -> ByteWriter {
        self.writer
    }

    /// The stream format.
    pub closed spec fn spec_format(&self) -> FlacFormat {
        self.format
    }

    /// Bytes of frame data written.
    pub closed spec fn spec_data_size(&self) -> u32 {
        self.data_size
    }

    /// The tags given.
    pub closed spec fn spec_metadata(&self) -> Option<FlacMetadata> {
        self.metadata
    }

    /// The streams.
    pub closed spec fn spec_streams(&self) -> Streams {
        self.streams
    }

    /// Writes the header of `format` at the position of `writer`; fails with `ZeroTimeBase`
    /// when the sample rate is zero.
    pub fn new(mut writer: ByteWriter, format: FlacFormat) -> (r: Result<Self, Error>)
        requires
            flac_header_writable(format),
        ensures
            writer.position() + flac_header_bytes(format).len() > usize::MAX ==> r == Err::<Self, Error>(Error::Overflow),
            writer.position() + flac_header_bytes(format).len() <= usize::MAX && format.sample_rate == 0 ==> r
                == Err::<Self, Error>(Error::ZeroTimeBase),
            writer.position() + flac_header_bytes(format).len() <= usize::MAX && format.sample_rate != 0 ==> (r matches Ok(m) && {
                &&& m.spec_writer().contents() == splice(
                    writer.contents(),
                    writer.position() as int,
                    flac_header_bytes(format),
                )
                &&& m.spec_writer().position() == writer.position() + flac_header_bytes(format).len()
                &&& m.spec_format() == format
                &&& m.spec_data_size() == 0
                &&& m.spec_metadata() is None
                &&& m.spec_streams().items@.len() == 1
                &&& m.spec_streams().items@[0].kind == StreamKind::Audio
                &&& m.spec_streams().items@[0].codec@ == "flac"@
                &&& m.spec_streams().items@[0].time == Time { num: 1, den: format.sample_rate }
            }),
    {
        Self::write_header(&mut writer, &format)?;
        let codec_name = String::from_str(format.to_codec_string());
        let time = Time::checked(1, format.sample_rate)?;
        let mut streams = Streams::new_empty();
        let stream_id = streams.next_id();
        let stream = Stream::new_audio(stream_id, codec_name, time);
        streams.add(stream);
        Ok(Self { writer, format, streams, metadata: None, data_size: 0 })
    }

    /// Sets the tags, which are not written.
    pub fn with_metadata(&mut self, metadata: Option<FlacMetadata>)
        ensures
            final(self).spec_metadata() == metadata,
            final(self).spec_writer() == old(self).spec_writer(),
            final(self).spec_data_size() == old(self).spec_data_size(),
            final(self).spec_format() == old(self).spec_format(),
    {
        self.metadata = metadata;
    }

    fn write_header(writer: &mut ByteWriter, format: &FlacFormat) -> (r: Result<(), Error>)
        requires
            flac_header_writable(*format),
        ensures
            old(writer).position() + flac_header_bytes(*format).len() <= usize::MAX ==> r is Ok
                && final(writer).contents() == splice(old(writer).contents(), old(writer).position() as int, flac_header_bytes(*format))
                && final(writer).position() == old(writer).position() + flac_header_bytes(*format).len(),
            old(writer).position() + flac_header_bytes(*format).len() > usize::MAX ==> r == Err::<(), Error>(Error::Overflow),
    {
        let header = build_flac_header(format);
        writer.write_all(header.as_slice())
    }

    /// Writes the data of a packet; its length must keep the count of bytes within 32 bits.
    pub fn write_packet(&mut self, packet: Packet) -> (r: Result<(), Error>)
        requires
            old(self).spec_data_size() + packet.data@.len() <= u32::MAX,
        ensures
            old(self).spec_writer().position() + packet.data@.len() <= usize::MAX ==> {
                &&& r is Ok
                &&& final(self).spec_writer().contents() == splice(
                    old(self).spec_writer().contents(),
                    old(self).spec_writer().position() as int,
                    packet.data@,
                )
                &&& final(self).spec_writer().position() == old(self).spec_writer().position() + packet.data@.len()
                &&& final(self).spec_data_size() == old(self).spec_data_size() + packet.data@.len()
            },
            old(self).spec_writer().position() + packet.data@.len() > usize::MAX ==> r == Err::<(), Error>(
                Error::Overflow,
            ) && final(self).spec_writer() == old(self).spec_writer(),
            final(self).spec_format() == old(self).spec_format(),
    {
        self.writer.write_all(packet.data.as_slice())?;
        self.data_size = self.data_size + packet.data.len() as u32;
        Ok(())
    }

    /// Nothing is left to write.
    pub fn finalize(&mut self) -> (r: Result<(), Error>)
        ensures
            r is Ok,
            final(self).spec_writer() == old(self).spec_writer(),
    {
        Ok(())
    }

    /// The streams.
    pub fn streams(&self) -> (s: &Streams)
        ensures
            *s == self.spec_streams(),
    {
        &self.streams
    }

    /// The sink.
    pub fn writer(&self) -> (w: &ByteWriter)
        ensures
            *w == self.spec_writer(),
    {
        &self.writer
    }
}

} // verus!
