use super::format::YuvFormat;
use crate::error::Error;
use crate::io::{splice, ByteWriter};
use crate::media::{Format, Packet};
use vstd::prelude::*;

verus! {

/// The muxer of raw YUV files: the pictures are written one after the other.
pub struct YuvMuxer {
    writer: ByteWriter,
    format: YuvFormat,
}

impl YuvMuxer {
    /// The sink.
    pub closed spec fn spec_writer(&self) -> ByteWriter {
        self.writer
    }

    /// The format of the pictures.
    pub closed spec fn spec_format(&self) -> YuvFormat {
        self.format
    }

    /// A muxer writing pictures of `format` to `writer`.
    pub fn new(writer: ByteWriter, format: YuvFormat) -> (r: Result<Self, Error>)
        ensures
            r matches Ok(m) && m.spec_writer() == writer && m.spec_format() == format,
    {
        Ok(YuvMuxer { writer, format })
    }

    /// A muxer for the YUV format that `format` holds; `WrongFormat` for any other.
    pub fn from_format(writer: ByteWriter, format: &Format) -> (r: Result<Self, Error>)
        ensures
            match *format {
                Format::Yuv(f) => r matches Ok(m) && m.spec_writer() == writer && m.spec_format() == f,
                _ => r == Err::<Self, Error>(Error::WrongFormat),
            },
    {
        match format {
            Format::Yuv(f) => Self::new(writer, *f),
            _ => Err(Error::WrongFormat),
        }
    }

    /// Writes the bytes of a packet as they are; `Overflow` where the file would outgrow
    /// `usize`.
    pub fn write_packet(&mut self, packet: Packet) -> (r: Result<(), Error>)
        ensures
            final(self).spec_format() == old(self).spec_format(),
            old(self).spec_writer().position() + packet.data@.len() <= usize::MAX ==> {
                &&& r is Ok
                &&& final(self).spec_writer().contents() == splice(
                    old(self).spec_writer().contents(),
                    old(self).spec_writer().position() as int,
                    packet.data@,
                )
                &&& final(self).spec_writer().position() == old(self).spec_writer().position()
                    + packet.data@.len()
            },
            old(self).spec_writer().position() + packet.data@.len() > usize::MAX ==> r == Err::<
                (),
                Error,
            >(Error::Overflow) && final(self).spec_writer() == old(self).spec_writer(),
    {
        self.writer.write_all(packet.data.as_slice())
    }

    /// Nothing is held back.
    pub fn finalize(&mut self) -> (r: Result<(), Error>)
        ensures
            r is Ok,
            final(self).spec_writer() == old(self).spec_writer(),
    {
        Ok(())
    }

    /// The sink.
    pub fn writer(&self) -> (w: &ByteWriter)
        ensures
            *w == self.spec_writer(),
    {
        &self.writer
    }
}

} // verus!
