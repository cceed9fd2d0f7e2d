use super::format::WavFormat;
use crate::error::Error;
use crate::io::{fcc, le16, le32, lemma_splice, push_all, splice, u16_le_bytes, u32_le_bytes, ByteWriter};
use crate::media::{Format, Packet};
use crate::metadata::Metadata;
use vstd::prelude::*;

verus! {

broadcast use vstd::std_specs::control_flow::group_control_flow_axioms;

/// The size the `fmt ` chunk declares: 18 for IEEE float, 20 for IMA ADPCM, else 16.
pub open spec fn fmt_chunk_size(code: u16) -> int {
    if code == 3 {
        18
    } else if code == 0x11 {
        20
    } else {
        16
    }
}

/// Samples per block of IMA ADPCM with 512-byte blocks.
pub open spec fn adpcm_samples_per_block(f: WavFormat) -> int {
    (512 - 4 * f.channels.spec_count()) * 2 + 1
}

/// The bytes after the 16 common bytes of the `fmt ` body.
pub open spec fn fmt_extra(f: WavFormat) -> Seq<u8> {
    if f.format_code == 3 {
        le16(0)
    } else if f.format_code == 0x11 {
        le16(4) + le16(adpcm_samples_per_block(f))
    } else {
        Seq::<u8>::empty()
    }
}

/// The 16 common bytes of a `fmt ` body.
pub open spec fn fmt_body(f: WavFormat) -> Seq<u8> {
    le16(f.format_code as int) + le16(f.channels.spec_count() as int) + le32(f.sample_rate as int) + le32(
        f.spec_byte_rate(),
    ) + le16(f.spec_block_align()) + le16(f.bit_depth as int)
}

/// The header the muxer writes: RIFF and WAVE, the `fmt ` chunk, and the `data` chunk header,
/// with both sizes zero until the muxer is finalized.
pub open spec fn wav_header_bytes(f: WavFormat) -> Seq<u8> {
    fcc(0x52, 0x49, 0x46, 0x46) + le32(0) + fcc(0x57, 0x41, 0x56, 0x45) + fcc(0x66, 0x6d, 0x74, 0x20) + le32(
        fmt_chunk_size(f.format_code),
    ) + fmt_body(f) + fmt_extra(f) + fcc(0x64, 0x61, 0x74, 0x61) + le32(0)
}

/// What a format needs for its header to be written: a block alignment that fits 16 bits and,
/// for IMA ADPCM, at most 128 channels.
pub open spec fn header_writable(f: WavFormat) -> bool {
    &&& f.spec_block_align() <= u16::MAX
    &&& f.format_code == 0x11 ==> f.channels.spec_count() <= 128
}

/// The INFO id of a tag key.
pub open spec fn info_id(key: Seq<char>) -> Option<Seq<u8>> {
    if key == "artist"@ {
        Some(fcc(0x49, 0x41, 0x52, 0x54))
    } else if key == "title"@ {
        Some(fcc(0x49, 0x4e, 0x41, 0x4d))
    } else if key == "comment"@ {
        Some(fcc(0x49, 0x43, 0x4f, 0x4d))
    } else if key == "copyright"@ {
        Some(fcc(0x49, 0x43, 0x4f, 0x50))
    } else if key == "software"@ {
        Some(fcc(0x49, 0x53, 0x46, 0x54))
    } else if key == "genre"@ {
        Some(fcc(0x49, 0x47, 0x4e, 0x52))
    } else if key == "track"@ {
        Some(fcc(0x49, 0x54, 0x52, 0x4b))
    } else {
        None
    }
}

/// The UTF-8 bytes of a text.
pub open spec fn utf8(s: Seq<char>) -> Seq<u8> {
    vstd::utf8::encode_utf8(s)
}

/// The room a tag takes in the LIST chunk as counted for its size: id, size, text, NUL and
/// a pad byte where the text and NUL are odd in length. Every tag is counted, also those
/// with a key that has no INFO id.
pub open spec fn tag_room(value: Seq<char>) -> int {
    let n = utf8(value).len() + 1;
    8 + n + if n % 2 == 1 { 1int } else { 0int }
}

/// The size the muxer computes for the LIST chunk: 8 plus the room of every tag.
pub open spec fn list_size(entries: Seq<(String, String)>) -> int
    decreases entries.len(),
{
    if entries.len() == 0 {
        8
    } else {
        list_size(entries.drop_last()) + tag_room(entries.last().1@)
    }
}

/// The bytes of one INFO sub-chunk.
pub open spec fn tag_bytes(id: Seq<u8>, value: Seq<char>) -> Seq<u8> {
    let n = utf8(value).len() + 1;
    id + le32(n as int) + utf8(value) + seq![0u8] + if n % 2 == 1 { seq![0u8] } else { Seq::<u8>::empty() }
}

/// The sub-chunks written for `entries`, in order; tags whose key has no INFO id are left out.
pub open spec fn tags_bytes(entries: Seq<(String, String)>) -> Seq<u8>
    decreases entries.len(),
{
    if entries.len() == 0 {
        Seq::<u8>::empty()
    } else {
        tags_bytes(entries.drop_last()) + match info_id(entries.last().0@) {
            Some(id) => tag_bytes(id, entries.last().1@),
            None => Seq::<u8>::empty(),
        }
    }
}

/// The LIST chunk written for `entries`.
pub open spec fn list_chunk_bytes(entries: Seq<(String, String)>) -> Seq<u8> {
    fcc(0x4c, 0x49, 0x53, 0x54) + le32(list_size(entries) - 8) + fcc(0x49, 0x4e, 0x46, 0x4f) + tags_bytes(entries)
}

/// Builds the header bytes of a format.
pub fn build_header(format: &WavFormat) -> (v: Vec<u8>)
    requires
        header_writable(*format),
    ensures
        v@ == wav_header_bytes(*format),
{
    let mut v: Vec<u8> = Vec::new();
    push_all(&mut v, &[0x52, 0x49, 0x46, 0x46]);
    push_all(&mut v, &u32_le_bytes(0));
    push_all(&mut v, &[0x57, 0x41, 0x56, 0x45]);
    push_all(&mut v, &[0x66, 0x6d, 0x74, 0x20]);
    let fmt_size: u32 = if format.format_code == 3 {
        18
    } else if format.format_code == 0x11 {
        20
    } else {
        16
    };
    push_all(&mut v, &u32_le_bytes(fmt_size));
    push_all(&mut v, &u16_le_bytes(format.format_code));
    push_all(&mut v, &u16_le_bytes(format.channels.count() as u16));
    push_all(&mut v, &u32_le_bytes(format.sample_rate));
    push_all(&mut v, &u32_le_bytes(format.byte_rate()));
    push_all(&mut v, &u16_le_bytes(format.block_align()));
    push_all(&mut v, &u16_le_bytes(format.bit_depth));
    if format.format_code == 3 {
        push_all(&mut v, &u16_le_bytes(0));
    } else if format.format_code == 0x11 {
        push_all(&mut v, &u16_le_bytes(4));
        let spb = ((512 - 4 * format.channels.count() as usize) * 2 + 1) as u16;
        push_all(&mut v, &u16_le_bytes(spb));
    }
    push_all(&mut v, &[0x64, 0x61, 0x74, 0x61]);
    push_all(&mut v, &u32_le_bytes(0));
    assert(v@ =~= wav_header_bytes(*format));
    v
}

/// The INFO id of a tag key.
fn info_id_of(key: &String) -> (r: Option<[u8; 4]>)
    ensures
        match info_id(key@) {
            Some(id) => r matches Some(a) && a@ == id,
            None => r is None,
        },
{
    let artist = String::from_str("artist");
    let title = String::from_str("title");
    let comment = String::from_str("comment");
    let copyright = String::from_str("copyright");
    let software = String::from_str("software");
    let genre = String::from_str("genre");
    let track = String::from_str("track");
    let r = if *key == artist {
        Some([0x49, 0x41, 0x52, 0x54])
    } else if *key == title {
        Some([0x49, 0x4e, 0x41, 0x4d])
    } else if *key == comment {
        Some([0x49, 0x43, 0x4f, 0x4d])
    } else if *key == copyright {
        Some([0x49, 0x43, 0x4f, 0x50])
    } else if *key == software {
        Some([0x49, 0x53, 0x46, 0x54])
    } else if *key == genre {
        Some([0x49, 0x47, 0x4e, 0x52])
    } else if *key == track {
        Some([0x49, 0x54, 0x52, 0x4b])
    } else {
        None
    };
    proof {
        if let Some(a) = r {
            assert(a@ =~= info_id(key@).unwrap());
        }
    }
    r
}

/// What opening a WAVE muxer on `writer` for `format` gives: the header written at the writer's
/// position, the writer after it, no samples yet, and where the two sizes are patched later;
/// `Overflow` where the header would end past `usize::MAX`.
pub open spec fn wav_muxer_opened(writer: ByteWriter, format: WavFormat, r: Result<WavMuxer, Error>) -> bool {
    &&& writer.position() + wav_header_bytes(format).len() <= usize::MAX ==> (r matches Ok(m) && {
        &&& m.wf()
        &&& m.spec_writer().contents() == splice(
            writer.contents(),
            writer.position() as int,
            wav_header_bytes(format),
        )
        &&& m.spec_writer().position() == writer.position() + wav_header_bytes(format).len()
        &&& m.spec_format() == format
        &&& m.spec_data_size() == 0
        &&& m.spec_metadata() is None
        &&& m.spec_file_size_pos() == writer.position() + 4
        &&& m.spec_data_size_pos() == writer.position() + wav_header_bytes(format).len() - 4
    })
    &&& writer.position() + wav_header_bytes(format).len() > usize::MAX ==> r == Err::<WavMuxer, Error>(
        Error::Overflow,
    )
}

/// The WAVE muxer: writes the header at once, the samples as they come, and the sizes and
/// tags when finalized.
pub struct WavMuxer {
    writer: ByteWriter,
    format: WavFormat,
    metadata: Option<Metadata>,
    data_size: u32,
    data_size_pos: u64,
    file_size_pos: u64,
}

impl WavMuxer {
    /// The sink.
    pub closed spec fn spec_writer(&self) -> ByteWriter {
        self.writer
    }

    /// The stream format.
    pub closed spec fn spec_format(&self) -> WavFormat {
        self.format
    }

    /// Bytes of sample data written.
    pub closed spec fn spec_data_size(&self) -> u32 {
        self.data_size
    }

    /// Where the `data` chunk size is patched.
    pub closed spec fn spec_data_size_pos(&self) -> u64 {
        self.data_size_pos
    }

    /// Where the RIFF size is patched.
    pub closed spec fn spec_file_size_pos(&self) -> u64 {
        self.file_size_pos
    }

    /// The tags to write when finalized.
    pub closed spec fn spec_metadata(&self) -> Option<Metadata> {
        self.metadata
    }

    /// Both size fields lie within what was written.
    pub closed spec fn wf(&self) -> bool {
        &&& self.file_size_pos + 4 <= self.writer.contents().len()
        &&& self.data_size_pos + 4 <= self.writer.contents().len()
    }

    /// The sink, with everything written so far.
    pub fn writer(&self) -> (w: &ByteWriter)
        ensures
            *w == self.spec_writer(),
    {
        &self.writer
    }

    /// Writes the header of `format` at the position of `writer`.
    pub fn new(mut writer: ByteWriter, format: WavFormat) -> (r: Result<Self, Error>)
        requires
            header_writable(format),
        ensures
            wav_muxer_opened(writer, format, r),
    {
        proof {
            writer.lemma_position();
            lemma_splice(writer.contents(), writer.position() as int, wav_header_bytes(format));
        }
        let (file_size_pos, data_size_pos) = Self::write_header(&mut writer, &format)?;
        Ok(WavMuxer { writer, format, metadata: None, data_size: 0, data_size_pos, file_size_pos })
    }

    /// Writes the header of the format that `format` holds; fails with `WrongFormat` for any
    /// other kind of format.
    pub fn from_format(writer: ByteWriter, format: &Format) -> (r: Result<Self, Error>)
        requires
            format matches Format::Wav(f) ==> header_writable(*f),
        ensures
            match *format {
                Format::Wav(f) => wav_muxer_opened(writer, f, r),
                _ => r == Err::<Self, Error>(Error::WrongFormat),
            },
    {
        let audio_format = match format {
            Format::Wav(audio) => audio,
            _ => return Err(Error::WrongFormat),
        };
        Self::new(writer, *audio_format)
    }

    fn write_header(writer: &mut ByteWriter, format: &WavFormat) -> (r: Result<(u64, u64), Error>)
        requires
            header_writable(*format),
        ensures
            old(writer).position() + wav_header_bytes(*format).len() <= usize::MAX ==> (r matches Ok((f, d)) && {
                &&& final(writer).contents() == splice(
                    old(writer).contents(),
                    old(writer).position() as int,
                    wav_header_bytes(*format),
                )
                &&& final(writer).position() == old(writer).position() + wav_header_bytes(*format).len()
                &&& f == old(writer).position() + 4
                &&& d == old(writer).position() + wav_header_bytes(*format).len() - 4
            }),
            old(writer).position() + wav_header_bytes(*format).len() > usize::MAX ==> r == Err::<(u64, u64), Error>(
                Error::Overflow,
            ),
    {
        let header = build_header(format);
        let start = writer.stream_position();
        writer.write_all(header.as_slice())?;
        let file_size_pos = start + 4;
        let data_size_pos = writer.stream_position() - 4;
        Ok((file_size_pos, data_size_pos))
    }

    /// Sets the tags written when finalized.
    pub fn set_metadata(&mut self, metadata: Option<Metadata>)
        ensures
            final(self).spec_metadata() == metadata,
            final(self).spec_writer() == old(self).spec_writer(),
            final(self).spec_format() == old(self).spec_format(),
            final(self).spec_data_size() == old(self).spec_data_size(),
            final(self).spec_data_size_pos() == old(self).spec_data_size_pos(),
            final(self).spec_file_size_pos() == old(self).spec_file_size_pos(),
            old(self).wf() ==> final(self).wf(),
    {
        self.metadata = metadata;
    }

    /// Writes the data of a packet; its length must keep the data size within 32 bits.
    pub fn write_packet(&mut self, packet: Packet) -> (r: Result<(), Error>)
        requires
            old(self).spec_data_size() + packet.data@.len() <= u32::MAX,
        ensures
            old(self).spec_writer().position() + packet.data@.len() <= usize::MAX ==> {
                &&& r is Ok
                &&& final(self).spec_writer().contents() == splice(
                    old(self).spec_writer().contents(),
                    old(self).spec_writer().position() as int,
                    packet.data@,
                )
                &&& final(self).spec_writer().position() == old(self).spec_writer().position() + packet.data@.len()
                &&& final(self).spec_data_size() == old(self).spec_data_size() + packet.data@.len()
            },
            old(self).spec_writer().position() + packet.data@.len() > usize::MAX ==> r == Err::<(), Error>(
                Error::Overflow,
            ) && final(self).spec_writer() == old(self).spec_writer(),
            final(self).spec_format() == old(self).spec_format(),
            final(self).spec_metadata() == old(self).spec_metadata(),
            final(self).spec_data_size_pos() == old(self).spec_data_size_pos(),
            final(self).spec_file_size_pos() == old(self).spec_file_size_pos(),
            old(self).wf() ==> final(self).wf(),
    {
        proof {
            self.writer.lemma_position();
            lemma_splice(self.writer.contents(), self.writer.position() as int, packet.data@);
        }
        self.writer.write_all(packet.data.as_slice())?;
        self.data_size = self.data_size + packet.data.len() as u32;
        Ok(())
    }

    /// Writes the tags after the data, then the `data` and RIFF sizes. The RIFF size is the
    /// data size plus 36, plus the LIST room of the tags where there are any.
    pub fn finalize_muxer(&mut self) -> (r: Result<(), Error>)
        requires
            old(self).wf(),
            old(self).spec_data_size() + 36 + match old(self).spec_metadata() {
                Some(m) => list_size(m.entries_spec()),
                None => 0,
            } <= u32::MAX,
        ensures
            ({
                let c0 = old(self).spec_writer().contents();
                let c1 = splice(c0, old(self).spec_data_size_pos() as int, le32(old(self).spec_data_size() as int));
                let (c2, fs) = match old(self).spec_metadata() {
                    Some(m) => if m.size() > 0 {
                        (c1 + list_chunk_bytes(m.entries_spec()), old(self).spec_data_size() + 36 + list_size(m.entries_spec()))
                    } else {
                        (c1, old(self).spec_data_size() + 36)
                    },
                    None => (c1, old(self).spec_data_size() + 36),
                };
                c0.len() + match old(self).spec_metadata() {
                    Some(m) => list_chunk_bytes(m.entries_spec()).len(),
                    None => 0,
                } <= usize::MAX ==> {
                    &&& r is Ok
                    &&& final(self).spec_writer().contents() == splice(c2, old(self).spec_file_size_pos() as int, le32(fs))
                }
            }),
    {
        let ghost c0 = self.writer.contents();
        proof {
            if let Some(m) = &self.metadata {
                lemma_list_size_min(m.entries_spec());
            }
        }
        self.writer.seek(self.data_size_pos)?;
        self.writer.write_u32_le(self.data_size)?;
        let mut file_size = self.data_size + 36;
        match &self.metadata {
            Some(meta) => {
                if !meta.is_empty() {
                    file_size = file_size + Self::calc_list_size(meta) as u32;
                    self.writer.seek_end();
                    Self::write_list_chunk(&mut self.writer, meta)?;
                }
            },
            None => {},
        }
        self.writer.seek(self.file_size_pos)?;
        self.writer.write_u32_le(file_size)?;
        Ok(())
    }

    /// The size computed for the LIST chunk of `metadata`.
    fn calc_list_size(metadata: &Metadata) -> (n: u64)
        requires
            list_size(metadata.entries_spec()) <= u32::MAX,
        ensures
            n == list_size(metadata.entries_spec()),
            n >= 8,
    {
        proof {
            lemma_list_size_min(metadata.entries_spec());
        }
        let fields = metadata.all_fields();
        let mut acc: u64 = 8;
        let mut i: usize = 0;
        while i < fields.len()
            invariant
                i <= fields@.len(),
                fields@ == metadata.entries_spec(),
                acc == list_size(fields@.take(i as int)),
                list_size(metadata.entries_spec()) <= u32::MAX,
            decreases fields@.len() - i,
        {
            let v = fields[i].1.as_str();
            let byte_len = v.as_bytes().len();
            assert(fields@.take(i + 1).drop_last() =~= fields@.take(i as int));
            proof {
                lemma_list_size_prefix(fields@, i as int + 1);
            }
            let mut size = acc + 8 + byte_len as u64 + 1;
            if (byte_len + 1) % 2 == 1 {
                size = size + 1;
            }
            acc = size;
            i = i + 1;
        }
        assert(fields@.take(i as int) =~= fields@);
        acc
    }

    fn write_list_chunk(writer: &mut ByteWriter, metadata: &Metadata) -> (r: Result<(), Error>)
        requires
            list_size(metadata.entries_spec()) <= u32::MAX,
            old(writer).position() == old(writer).contents().len(),
        ensures
            metadata.size() == 0 ==> r is Ok && *final(writer) == *old(writer),
            metadata.size() > 0 && old(writer).contents().len() + list_chunk_bytes(metadata.entries_spec()).len()
                <= usize::MAX ==> r is Ok && final(writer).contents() == old(writer).contents() + list_chunk_bytes(
                metadata.entries_spec(),
            ),
    {
        if metadata.is_empty() {
            return Ok(());
        }
        let bytes = Self::build_list_chunk(metadata);
        writer.write_all(bytes.as_slice())?;
        Ok(())
    }

    fn build_list_chunk(metadata: &Metadata) -> (v: Vec<u8>)
        requires
            list_size(metadata.entries_spec()) <= u32::MAX,
        ensures
            v@ == list_chunk_bytes(metadata.entries_spec()),
    {
        let declared = Self::calc_list_size(metadata) - 8;
        let mut v: Vec<u8> = Vec::new();
        push_all(&mut v, &[0x4c, 0x49, 0x53, 0x54]);
        push_all(&mut v, &u32_le_bytes(declared as u32));
        push_all(&mut v, &[0x49, 0x4e, 0x46, 0x4f]);
        let ghost head = v@;
        let fields = metadata.all_fields();
        let mut i: usize = 0;
        while i < fields.len()
            invariant
                i <= fields@.len(),
                fields@ == metadata.entries_spec(),
                v@ == head + tags_bytes(fields@.take(i as int)),
                list_size(metadata.entries_spec()) <= u32::MAX,
            decreases fields@.len() - i,
        {
            assert(fields@.take(i + 1).drop_last() =~= fields@.take(i as int));
            match info_id_of(&fields[i].0) {
                Some(id) => {
                    proof {
                        lemma_list_size_prefix(fields@, i as int + 1);
                        lemma_tag_room_bound(fields@.take(i + 1));
                    }
                    Self::push_wav_tag(&mut v, id, fields[i].1.as_str());
                },
                None => {},
            }
            assert(v@ =~= head + tags_bytes(fields@.take(i + 1)));
            i = i + 1;
        }
        assert(fields@.take(i as int) =~= fields@);
        assert(v@ =~= list_chunk_bytes(metadata.entries_spec()));
        v
    }

    fn push_wav_tag(v: &mut Vec<u8>, id: [u8; 4], value: &str)
        requires
            utf8(value@).len() + 1 <= u32::MAX,
        ensures
            final(v)@ == old(v)@ + tag_bytes(id@, value@),
    {
        let bytes = value.as_bytes();
        let value_len = bytes.len() + 1;
        push_all(v, &id);
        push_all(v, &u32_le_bytes(value_len as u32));
        push_all(v, bytes);
        push_all(v, &[0u8]);
        if value_len % 2 == 1 {
            push_all(v, &[0u8]);
        }
        assert(final(v)@ =~= old(v)@ + tag_bytes(id@, value@));
    }
}

/// The room of every prefix of the tags is at most the room of all of them.
pub proof fn lemma_list_size_prefix(entries: Seq<(String, String)>, n: int)
    requires
        0 <= n <= entries.len(),
    ensures
        list_size(entries.take(n)) <= list_size(entries),
        list_size(entries.take(n)) >= 8,
    decreases entries.len() - n,
{
    if n < entries.len() {
        lemma_list_size_prefix(entries, n + 1);
        assert(entries.take(n + 1).drop_last() =~= entries.take(n));
    } else {
        assert(entries.take(n) =~= entries);
    }
    lemma_list_size_min(entries.take(n));
}

proof fn lemma_list_size_min(entries: Seq<(String, String)>)
    ensures
        list_size(entries) >= 8,
    decreases entries.len(),
{
    if entries.len() > 0 {
        lemma_list_size_min(entries.drop_last());
    }
}

proof fn lemma_tag_room_bound(entries: Seq<(String, String)>)
    requires
        entries.len() > 0,
    ensures
        utf8(entries.last().1@).len() + 1 <= list_size(entries),
{
    lemma_list_size_min(entries.drop_last());
}

} // verus!
