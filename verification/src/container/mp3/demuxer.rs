use crate::error::Error;
use crate::io::{fcc, ByteReader};
use crate::media::{Packet, Stream, StreamKind, Streams, Time};
use vstd::prelude::*;

verus! {

broadcast use vstd::std_specs::control_flow::group_control_flow_axioms;

/// The most bytes one packet holds: enough for several MP3 frames.
pub const CHUNK_SIZE: usize = 16384;

/// The sample rate an MPEG audio header at `i` names, if a sync word starts there and its
/// version and rate index are not reserved.
pub open spec fn rate_at(d: Seq<u8>, i: int) -> Option<u32> {
    if d[i] == 0xFF && d[i + 1] & 0xE0u8 == 0xE0u8 {
        let version = (d[i + 1] >> 3u8) & 0x03u8;
        let sr = (d[i + 2] >> 2u8) & 0x03u8;
        if sr == 3 {
            None
        } else if version == 3 {
            Some(if sr == 0 { 44100u32 } else if sr == 1 { 48000u32 } else { 32000u32 })
        } else if version == 2 {
            Some(if sr == 0 { 22050u32 } else if sr == 1 { 24000u32 } else { 16000u32 })
        } else if version == 0 {
            Some(if sr == 0 { 11025u32 } else if sr == 1 { 12000u32 } else { 8000u32 })
        } else {
            None
        }
    } else {
        None
    }
}

/// The rate of the first usable MPEG audio header at or after `i`, looking at positions up
/// to four before the end.
pub open spec fn detect_from(d: Seq<u8>, i: int) -> Option<u32>
    decreases d.len() - i,
{
    if i < 0 || i >= d.len() - 4 {
        None
    } else {
        match rate_at(d, i) {
            Some(r) => Some(r),
            None => detect_from(d, i + 1),
        }
    }
}

/// The sample rate an MPEG audio frame header at the start of `d` gives, by its version (bits
/// 4 and 3 of the second byte) and its sample-rate index (bits 3 and 2 of the third byte), as
/// the MPEG audio standards tabulate it: MPEG-1 44100, 48000, 32000 Hz; MPEG-2 22050, 24000,
/// 16000 Hz; MPEG-2.5 11025, 12000, 8000 Hz. A reserved version or index makes the search go on
/// from the next byte.
pub proof fn law_mpeg_sample_rate_table(d: Seq<u8>)
    requires
        d.len() >= 5,
        d[0] == 0xFF,
        d[1] >= 0xE0,
    ensures
        ({
            let version = (d[1] / 8) % 4;
            let index = (d[2] / 4) % 4;
            &&& version == 3 && index == 0 ==> detect_from(d, 0) == Some(44100u32)
            &&& version == 3 && index == 1 ==> detect_from(d, 0) == Some(48000u32)
            &&& version == 3 && index == 2 ==> detect_from(d, 0) == Some(32000u32)
            &&& version == 2 && index == 0 ==> detect_from(d, 0) == Some(22050u32)
            &&& version == 2 && index == 1 ==> detect_from(d, 0) == Some(24000u32)
            &&& version == 2 && index == 2 ==> detect_from(d, 0) == Some(16000u32)
            &&& version == 0 && index == 0 ==> detect_from(d, 0) == Some(11025u32)
            &&& version == 0 && index == 1 ==> detect_from(d, 0) == Some(12000u32)
            &&& version == 0 && index == 2 ==> detect_from(d, 0) == Some(8000u32)
            &&& version == 1 || index == 3 ==> detect_from(d, 0) == detect_from(d, 1)
        }),
{
    let b1 = d[1];
    let b2 = d[2];
    assert(b1 & 0xE0u8 == 0xE0u8) by (bit_vector)
        requires
            b1 >= 0xE0u8,
    ;
    assert((b1 >> 3u8) & 0x03u8 == (b1 / 8) % 4) by (bit_vector);
    assert((b2 >> 2u8) & 0x03u8 == (b2 / 4) % 4) by (bit_vector);
}

/// The sample rate of the first usable MPEG audio header in `data`.
pub fn detect_sample_rate(data: &[u8]) -> (r: Option<u32>)
    ensures
        r == detect_from(data@, 0),
{
    let end = if data.len() >= 4 { data.len() - 4 } else { 0 };
    let mut i: usize = 0;
    while i < end
        invariant
            end == (if data@.len() >= 4 { data@.len() - 4 } else { 0 }),
            i <= end,
            detect_from(data@, 0) == detect_from(data@, i as int),
        decreases end - i,
    {
        if data[i] == 0xFF && (data[i + 1] & 0xE0) == 0xE0 {
            let version_bits = (data[i + 1] >> 3u8) & 0x03u8;
            let sr_index = (data[i + 2] >> 2u8) & 0x03u8;
            if sr_index != 3 {
                if version_bits == 3 {
                    return Some(if sr_index == 0 { 44100 } else if sr_index == 1 { 48000 } else { 32000 });
                } else if version_bits == 2 {
                    return Some(if sr_index == 0 { 22050 } else if sr_index == 1 { 24000 } else { 16000 });
                } else if version_bits == 0 {
                    return Some(if sr_index == 0 { 11025 } else if sr_index == 1 { 12000 } else { 8000 });
                }
            }
        }
        i = i + 1;
    }
    None
}

/// The size an ID3v2 header gives: four seven-bit bytes, most significant first.
pub open spec fn id3_size(h: Seq<u8>) -> u32 {
    (((h[6] as u32) & 0x7Fu32) << 21u32) | (((h[7] as u32) & 0x7Fu32) << 14u32) | (((h[8] as u32) & 0x7Fu32)
        << 7u32) | ((h[9] as u32) & 0x7Fu32)
}

/// Reading the start of an MP3 file: the bytes before the audio data that were read while
/// probing (the first ten where they are no ID3 tag, then up to a chunk), and what is left.
pub open spec fn mp3_open(s: Seq<u8>) -> Result<(Seq<u8>, Seq<u8>), Error> {
    if s.len() < 10 {
        Err(Error::UnexpectedEof)
    } else {
        let h = s.take(10);
        let (pre, r) = if h.take(3) == seq![0x49u8, 0x44, 0x33] {
            (Seq::<u8>::empty(), s.skip(10))
        } else {
            (h, s.skip(10))
        };
        if h.take(3) == seq![0x49u8, 0x44, 0x33] && id3_size(h) > r.len() {
            Err(Error::UnexpectedEof)
        } else {
            let r2 = if h.take(3) == seq![0x49u8, 0x44, 0x33] { r.skip(id3_size(h) as int) } else { r };
            let n = if r2.len() < CHUNK_SIZE { r2.len() as int } else { CHUNK_SIZE as int };
            Ok((pre + r2.take(n), r2.skip(n)))
        }
    }
}

/// The audio data of an MP3 file: all of it after the ID3v2 tag where there is one, else all
/// of it.
pub open spec fn mp3_audio(s: Seq<u8>) -> Seq<u8> {
    if s.take(10).take(3) == seq![0x49u8, 0x44, 0x33] {
        s.skip(10).skip(id3_size(s.take(10)) as int)
    } else {
        s
    }
}

/// The bytes of a packet a call handed out, or none.
pub open spec fn packet_bytes(r: Result<Option<Packet>, Error>) -> Seq<u8> {
    match r {
        Ok(Some(p)) => p.data@,
        _ => Seq::empty(),
    }
}

/// Reading an MP3 demuxer across calls: where the packets handed out so far, joined and followed
/// by what is still pending, make the audio data the demuxer started with, and nothing is
/// pending (a call gave `None`), the packets joined are that audio data. `Mp3Demuxer::new`
/// starts with all of `mp3_audio` pending, and each `read_packet` moves the bytes it hands out
/// from the front of what is pending.
pub proof fn law_mp3_reads_join(handed: Seq<Seq<u8>>, audio: Seq<u8>, pending: Seq<u8>)
    requires
        handed.flatten() + pending == audio,
        pending.len() == 0,
    ensures
        handed.flatten() == audio,
{
    assert(handed.flatten() + pending =~= handed.flatten());
}

/// The MP3 demuxer: hands out the audio data in chunks, numbered from zero.
pub struct Mp3Demuxer {
    reader: ByteReader,
    streams: Streams,
    sample_rate: u32,
    packet_count: u64,
    eof: bool,
    stashed: Vec<u8>,
}

impl Mp3Demuxer {
    /// The bytes not read from the source yet.
    pub closed spec fn source(&self) -> Seq<u8> {
        self.reader.rest()
    }

    /// The probed bytes not handed out yet.
    pub closed spec fn spec_stashed(&self) -> Seq<u8> {
        self.stashed@
    }

    /// The sample rate.
    pub closed spec fn spec_sample_rate(&self) -> u32 {
        self.sample_rate
    }

    /// The packets handed out so far.
    pub closed spec fn spec_packet_count(&self) -> u64 {
        self.packet_count
    }

    /// Whether the source has run dry.
    pub closed spec fn spec_eof(&self) -> bool {
        self.eof
    }

    /// The streams.
    pub closed spec fn spec_streams(&self) -> Streams {
        self.streams
    }

    /// The audio data still to be handed out: the probed bytes, then the rest of the source;
    /// nothing once the source has run dry.
    pub closed spec fn pending(&self) -> Seq<u8> {
        if self.eof {
            Seq::empty()
        } else {
            self.stashed@ + self.reader.rest()
        }
    }

    /// Every packet takes at least one byte, so the counter cannot overflow.
    pub closed spec fn wf(&self) -> bool {
        self.packet_count + self.reader.rest().len() + self.stashed@.len() <= u64::MAX
    }

    /// Skips an ID3v2 tag if there is one, probes the first chunk of audio data for its sample
    /// rate (44100 where no header is found), and keeps the probed bytes for the first packet.
    pub fn new(reader: ByteReader) -> (r: Result<Self, Error>)
        ensures
            match mp3_open(reader.rest()) {
                Err(e) => r == Err::<Self, Error>(e),
                Ok((stash, rest)) => r matches Ok(d) && {
                    let rate = match detect_from(stash, 0) {
                        Some(x) => x,
                        None => 44100u32,
                    };
                    &&& d.wf()
                    &&& d.source() == rest
                    &&& d.spec_stashed() == stash
                    &&& d.spec_sample_rate() == rate
                    &&& d.spec_packet_count() == 0
                    &&& !d.spec_eof()
                    &&& d.pending() == mp3_audio(reader.rest())
                    &&& d.spec_streams().items@.len() == 1
                    &&& d.spec_streams().items@[0].id == 0
                    &&& d.spec_streams().items@[0].index == 0
                    &&& d.spec_streams().items@[0].kind == StreamKind::Audio
                    &&& d.spec_streams().items@[0].codec@ == "mp3"@
                    &&& d.spec_streams().items@[0].time == Time { num: 1, den: rate }
                },
            },
    {
        let mut reader = reader;
        let ghost s = reader.rest();
        let _ = reader.remaining();
        let header = reader.read_exact(10)?;
        let mut preamble: Vec<u8> = Vec::new();
        let is_id3 = header[0] == 0x49 && header[1] == 0x44 && header[2] == 0x33;
        proof {
            assert(header@.take(3) == seq![0x49u8, 0x44, 0x33] <==> is_id3) by {
                if is_id3 {
                    assert(header@.take(3) =~= seq![0x49u8, 0x44, 0x33]);
                }
            }
        }
        if is_id3 {
            let size: u32 = (((header[6] as u32) & 0x7Fu32) << 21u32) | (((header[7] as u32) & 0x7Fu32) << 14u32)
                | (((header[8] as u32) & 0x7Fu32) << 7u32) | ((header[9] as u32) & 0x7Fu32);
            let _ = reader.read_exact(size as usize)?;
        } else {
            crate::io::push_all(&mut preamble, header.as_slice());
            assert(preamble@ =~= header@);
        }
        assert(header@ == s.take(10));
        assert(is_id3 ==> preamble@ =~= Seq::<u8>::empty());
        let probe = reader.read(CHUNK_SIZE);
        let mut all_data = preamble;
        crate::io::push_all(&mut all_data, probe.as_slice());
        let sample_rate = match detect_sample_rate(all_data.as_slice()) {
            Some(x) => x,
            None => 44100,
        };
        let time = Time::new(1, sample_rate);
        let stream = Stream::new(0, 0, StreamKind::Audio, String::from_str("mp3"), time);
        let mut items: Vec<Stream> = Vec::new();
        items.push(stream);
        let streams = Streams::new(items);
        proof {
            assert(s.skip(10).len() == s.len() - 10);
            let h = s.take(10);
            assert(h.take(3) == seq![0x49u8, 0x44, 0x33] <==> is_id3);
            assert(mp3_open(s) is Ok);
            assert(all_data@ == mp3_open(s)->Ok_0.0);
            assert(reader.rest() == mp3_open(s)->Ok_0.1);
            assert(all_data@.len() + reader.rest().len() <= s.len());
            let r2 = if is_id3 { s.skip(10).skip(id3_size(h) as int) } else { s.skip(10) };
            let n = if r2.len() < CHUNK_SIZE { r2.len() as int } else { CHUNK_SIZE as int };
            assert(r2.take(n) + r2.skip(n) =~= r2);
            if !is_id3 {
                assert(h + s.skip(10) =~= s);
            }
            assert(all_data@ + reader.rest() =~= mp3_audio(s));
        }
        Ok(Mp3Demuxer { reader, streams, sample_rate, packet_count: 0, eof: false, stashed: all_data })
    }

    /// The sample rate.
    pub fn sample_rate(&self) -> (r: u32)
        ensures
            r == self.spec_sample_rate(),
    {
        self.sample_rate
    }

    /// The streams.
    pub fn streams(&self) -> (s: &Streams)
        ensures
            *s == self.spec_streams(),
    {
        &self.streams
    }

    /// Hands out the probed bytes first, then chunks of up to `CHUNK_SIZE` bytes; `None` from
    /// the first time the source has nothing left on.
    pub fn read_packet(&mut self) -> (r: Result<Option<Packet>, Error>)
        requires
            old(self).wf(),
        ensures
            final(self).wf(),
            r is Ok,
            final(self).spec_streams() == old(self).spec_streams(),
            final(self).spec_sample_rate() == old(self).spec_sample_rate(),
            old(self).pending() == packet_bytes(r) + final(self).pending(),
            r == Ok::<Option<Packet>, Error>(None) ==> old(self).pending().len() == 0 && final(self).pending().len()
                == 0,
            ({
                let rest = old(self).source();
                let n = if rest.len() < CHUNK_SIZE { rest.len() as int } else { CHUNK_SIZE as int };
                if old(self).spec_eof() {
                    r == Ok::<Option<Packet>, Error>(None) && *final(self) == *old(self)
                } else if old(self).spec_stashed().len() > 0 {
                    &&& r matches Ok(Some(p))
                    &&& p.data@ == old(self).spec_stashed()
                    &&& p.stream_id == 0
                    &&& p.time == Time { num: 1, den: old(self).spec_sample_rate() }
                    &&& p.pts == old(self).spec_packet_count() as i64
                    &&& !p.keyframe
                    &&& final(self).spec_stashed().len() == 0
                    &&& final(self).source() == rest
                    &&& final(self).spec_packet_count() == old(self).spec_packet_count() + 1
                    &&& !final(self).spec_eof()
                } else if n == 0 {
                    &&& r == Ok::<Option<Packet>, Error>(None)
                    &&& final(self).spec_eof()
                    &&& final(self).source() == rest
                    &&& final(self).spec_stashed() == old(self).spec_stashed()
                    &&& final(self).spec_packet_count() == old(self).spec_packet_count()
                } else {
                    &&& r matches Ok(Some(p))
                    &&& p.data@ == rest.take(n)
                    &&& p.stream_id == 0
                    &&& p.time == Time { num: 1, den: old(self).spec_sample_rate() }
                    &&& p.pts == old(self).spec_packet_count() as i64
                    &&& !p.keyframe
                    &&& final(self).spec_stashed().len() == 0
                    &&& final(self).source() == rest.skip(n)
                    &&& final(self).spec_packet_count() == old(self).spec_packet_count() + 1
                    &&& !final(self).spec_eof()
                }
            }),
    {
        if self.eof {
            return Ok(None);
        }
        let data = if self.stashed.len() > 0 {
            let mut d: Vec<u8> = Vec::new();
            std::mem::swap(&mut d, &mut self.stashed);
            d
        } else {
            let buf = self.reader.read(CHUNK_SIZE);
            if buf.len() == 0 {
                self.eof = true;
                return Ok(None);
            }
            buf
        };
        let time = Time::new(1, self.sample_rate);
        let packet = Packet::new(data, 0, time).with_pts(self.packet_count as i64);
        self.packet_count = self.packet_count + 1;
        Ok(Some(packet))
    }
}

} // verus!
