use ffmpreg::container::avi::demuxer::audio_codec_string;
use ffmpreg::container::avi::{AviAudioTrack, AviDemuxer, AviMuxer, AviVideoTrack};
use ffmpreg::container::mkv::ebml::{f64_bits_of_u64, write_id, write_size, write_uint, write_unknown_size};
use ffmpreg::container::mkv::{AudioTrackInfo, MkvMuxer, VideoTrackInfo};
use ffmpreg::container::mp3::demuxer::detect_sample_rate;
use ffmpreg::container::mp3::Mp3Demuxer;
use ffmpreg::container::mpegts::demuxer::parse_pts;
use ffmpreg::container::mpegts::muxer::crc32_mpeg2;
use ffmpreg::container::mpegts::{TsAudioTrack, TsMuxer, TsVideoTrack};
use ffmpreg::container::wav::demuxer::WavDemuxer;
use ffmpreg::container::wav::format::WavFormat;
use ffmpreg::container::wav::muxer::WavMuxer;
use ffmpreg::error::Error;
use ffmpreg::io::{ByteReader, ByteWriter};
use ffmpreg::container::raw::{RawPcmDemuxer, RawPcmFormat, RawPcmMuxer};
use ffmpreg::container::yuv::{YuvDemuxer, YuvFormat, YuvMuxer};
use ffmpreg::media::{Channels, Format, Packet, StreamKind, Time, VideoFormat};

fn le32(b: &[u8], at: usize) -> u32 {
    u32::from_le_bytes([b[at], b[at + 1], b[at + 2], b[at + 3]])
}

#[test]
fn wav_mux_then_demux_gives_the_samples_back() {
    let format = WavFormat { channels: Channels::Stereo, sample_rate: 44100, bit_depth: 16, format_code: 1 };
    let mut m = WavMuxer::new(ByteWriter::new(), format).unwrap();
    let samples: Vec<u8> = (0u8..16).collect();
    m.write_packet(Packet::new(samples.clone(), 0, Time::new(1, 44100))).unwrap();
    m.finalize_muxer().unwrap();
    let bytes = m.writer().as_bytes().to_vec();
    assert_eq!(&bytes[0..4], b"RIFF");
    assert_eq!(le32(&bytes, 4), 16 + 36);
    let mut d = WavDemuxer::new(ByteReader::new(bytes)).unwrap();
    let f = d.format();
    assert_eq!(f.sample_rate, 44100);
    assert_eq!(f.bit_depth, 16);
    let p = d.read_packet().unwrap().unwrap();
    assert_eq!(p.data, samples);
    assert_eq!(p.pts, 0);
    assert!(d.read_packet().unwrap().is_none());
}

#[test]
fn wav_demux_rejects_a_foreign_riff_code() {
    let mut bytes = b"RIFX".to_vec();
    bytes.extend_from_slice(&[0u8; 40]);
    match WavDemuxer::new(ByteReader::new(bytes)) {
        Err(e) => assert_eq!(e, Error::BadFourcc { expected: 0x52494646, found: 0x52494658 }),
        Ok(_) => panic!("accepted a RIFX file"),
    }
}

#[test]
fn wav_demux_reports_a_short_file() {
    match WavDemuxer::new(ByteReader::new(b"RIFF".to_vec())) {
        Err(e) => assert_eq!(e, Error::UnexpectedEof),
        Ok(_) => panic!("accepted a truncated file"),
    }
}

fn avi_tracks() -> (AviVideoTrack, AviAudioTrack) {
    (
        AviVideoTrack { width: 320, height: 240, fps: 25, fourcc: *b"H264" },
        AviAudioTrack { sample_rate: 44100, channels: 2, bit_depth: 16, format_tag: 1 },
    )
}

#[test]
fn avi_header_layout() {
    let (v, _) = avi_tracks();
    let m = AviMuxer::new(ByteWriter::new(), Some(v), None).unwrap();
    let b = m.writer().as_bytes().to_vec();
    assert_eq!(&b[0..4], b"RIFF");
    assert_eq!(le32(&b, 4), 0);
    assert_eq!(&b[8..12], b"AVI ");
    assert_eq!(&b[12..16], b"LIST");
    assert_eq!(&b[20..24], b"hdrl");
    assert_eq!(&b[24..28], b"avih");
    assert_eq!(le32(&b, 28), 56);
    assert_eq!(le32(&b, 32), 1_000_000 / 25);
    assert_eq!(le32(&b, 32 + 24), 1);
    assert_eq!(le32(&b, 32 + 32), 320);
    assert_eq!(le32(&b, 32 + 36), 240);
    let n = b.len();
    assert_eq!(&b[n - 12..n - 8], b"LIST");
    assert_eq!(&b[n - 4..], b"movi");
    assert_eq!(le32(&b, 16) as usize, 4 + 64 + 124);
}

#[test]
fn avi_mux_then_demux() {
    let (v, a) = avi_tracks();
    let mut m = AviMuxer::new(ByteWriter::new(), Some(v), Some(a)).unwrap();
    m.write(Packet::new(vec![1, 2, 3, 4], 0, Time::new(1, 25)).with_keyframe(true)).unwrap();
    m.write(Packet::new(vec![9, 8, 7], 1, Time::new(1, 44100))).unwrap();
    m.write(Packet::new(vec![5, 6], 0, Time::new(1, 25))).unwrap();
    m.finalize().unwrap();
    let bytes = m.writer().as_bytes().to_vec();
    let n = bytes.len();
    assert_eq!(le32(&bytes, 4) as usize, n - 8);
    assert_eq!(le32(&bytes, 48), 2, "dwTotalFrames holds the video frame count");
    assert_eq!(le32(&bytes, 56), 2, "dwStreams holds the track count");
    let mut d = AviDemuxer::new(ByteReader::new(bytes)).unwrap();
    let s = d.streams();
    assert_eq!(s.len(), 2);
    assert_eq!(s.items[0].kind, StreamKind::Video);
    assert_eq!(s.items[0].codec, "h264");
    assert_eq!(s.items[0].time, Time::new(1, 25));
    assert_eq!(s.items[1].kind, StreamKind::Audio);
    assert_eq!(s.items[1].codec, "pcm_s16le");
    assert_eq!(s.items[1].time, Time::new(4, 44100));
    let p0 = d.read_packet().unwrap().unwrap();
    assert_eq!((p0.data.clone(), p0.stream_id, p0.pts), (vec![1, 2, 3, 4], 0, 0));
    let p1 = d.read_packet().unwrap().unwrap();
    assert_eq!((p1.data.clone(), p1.stream_id, p1.pts), (vec![9, 8, 7], 1, 1));
    let p2 = d.read_packet().unwrap().unwrap();
    assert_eq!((p2.data.clone(), p2.stream_id, p2.pts), (vec![5, 6], 0, 2));
    assert!(d.read_packet().unwrap().is_none());
}

#[test]
fn avi_index_records_keyframes_and_offsets() {
    let (v, _) = avi_tracks();
    let mut m = AviMuxer::new(ByteWriter::new(), Some(v), None).unwrap();
    m.write(Packet::new(vec![1, 2, 3], 0, Time::new(1, 25)).with_keyframe(true)).unwrap();
    m.write(Packet::new(vec![4, 5], 0, Time::new(1, 25))).unwrap();
    m.finalize().unwrap();
    let b = m.writer().as_bytes().to_vec();
    let n = b.len();
    let idx = n - (8 + 32);
    assert_eq!(&b[idx..idx + 4], b"idx1");
    assert_eq!(le32(&b, idx + 4), 32);
    assert_eq!(&b[idx + 8..idx + 12], b"00dc");
    assert_eq!(le32(&b, idx + 12), 0x10);
    assert_eq!(le32(&b, idx + 16), 0);
    assert_eq!(le32(&b, idx + 20), 3);
    assert_eq!(le32(&b, idx + 28), 0);
    assert_eq!(le32(&b, idx + 32), 12);
}

#[test]
fn avi_audio_codec_names() {
    assert_eq!(audio_codec_string(1), "pcm_s16le");
    assert_eq!(audio_codec_string(3), "pcm_f32le");
    assert_eq!(audio_codec_string(0x55), "mp3");
    assert_eq!(audio_codec_string(0xff), "aac");
    assert_eq!(audio_codec_string(0x1234), "audio_0x1234");
    assert_eq!(audio_codec_string(0xabcd), "audio_0xabcd");
}

#[test]
fn crc32_mpeg2_check_value() {
    assert_eq!(crc32_mpeg2(b"123456789"), 0x0376_E6E7);
    assert_eq!(crc32_mpeg2(&[]), 0xFFFF_FFFF);
}

#[test]
fn ts_packets_are_188_bytes_with_sync() {
    let mut m = TsMuxer::new(ByteWriter::new(), Some(TsVideoTrack::h264()), Some(TsAudioTrack::aac())).unwrap();
    assert_eq!(m.writer().len(), 376);
    let data: Vec<u8> = (0..400u32).map(|i| i as u8).collect();
    m.write(Packet::new(data.clone(), 0x100, Time::new(1, 90000)).with_keyframe(true), 90_000).unwrap();
    m.write(Packet::new(vec![1, 2, 3], 0x101, Time::new(1, 90000)), 45_000).unwrap();
    m.finalize().unwrap();
    let b = m.writer().as_bytes().to_vec();
    assert_eq!(b.len() % 188, 0);
    for k in 0..b.len() / 188 {
        assert_eq!(b[k * 188], 0x47);
    }
    assert_eq!(b.len(), 188 * (2 + 2 + 3 + 1));
    let pes = &b[4 * 188 + 4..];
    assert_eq!(&pes[0..4], &[0x00, 0x00, 0x01, 0xE0]);
    assert_eq!(u16::from_be_bytes([pes[4], pes[5]]), 408);
    assert_eq!(parse_pts(&pes[9..14]), 90_000);
}

#[test]
fn ts_pat_has_its_crc() {
    let m = TsMuxer::new(ByteWriter::new(), None, Some(TsAudioTrack::pcm())).unwrap();
    let b = m.writer().as_bytes().to_vec();
    assert_eq!(&b[0..4], &[0x47, 0x40, 0x00, 0x10]);
    assert_eq!(&b[5..8], &[0x00, 0xB0, 13]);
    let section = &b[5..5 + 12];
    let crc = crc32_mpeg2(section);
    assert_eq!(&b[17..21], &crc.to_be_bytes());
    assert_eq!(b[21], 0xFF);
}

#[test]
fn pts_survives_a_round_trip() {
    for pts in [0u64, 1, 90_000, 0x1_2345_6789, 0x1_FFFF_FFFF] {
        let bytes = [
            0x21u8 | (((pts >> 29) & 0x0E) as u8),
            ((pts >> 22) & 0xFF) as u8,
            (((pts >> 14) & 0xFE) | 0x01) as u8,
            ((pts >> 7) & 0xFF) as u8,
            (((pts << 1) & 0xFE) | 0x01) as u8,
        ];
        assert_eq!(parse_pts(&bytes), pts);
    }
}

fn written(f: impl FnOnce(&mut ByteWriter)) -> Vec<u8> {
    let mut w = ByteWriter::new();
    f(&mut w);
    w.as_bytes().to_vec()
}

#[test]
fn ebml_sizes_and_ids() {
    assert_eq!(written(|w| write_size(w, 0x7E).unwrap()), vec![0xFE]);
    assert_eq!(written(|w| write_size(w, 0x7F).unwrap()), vec![0x40, 0x7F]);
    assert_eq!(written(|w| write_size(w, 0x3FFF).unwrap()), vec![0x20, 0x3F, 0xFF]);
    assert_eq!(written(|w| write_size(w, 0x1F_FFFF).unwrap()), vec![0x10, 0x1F, 0xFF, 0xFF]);
    assert_eq!(written(|w| write_size(w, 0x0FFF_FFFF).unwrap()), vec![0x01, 0, 0, 0, 0x0F, 0xFF, 0xFF, 0xFF]);
    assert_eq!(written(|w| write_unknown_size(w).unwrap()), vec![0x01, 0xFF, 0xFF, 0xFF, 0xFF, 0xFF, 0xFF, 0xFF]);
    assert_eq!(written(|w| write_id(w, 0xA3).unwrap()), vec![0xA3]);
    assert_eq!(written(|w| write_id(w, 0x4286).unwrap()), vec![0x42, 0x86]);
    assert_eq!(written(|w| write_id(w, 0x2AD7B1).unwrap()), vec![0x2A, 0xD7, 0xB1]);
    assert_eq!(written(|w| write_id(w, 0x1A45DFA3).unwrap()), vec![0x1A, 0x45, 0xDF, 0xA3]);
    assert_eq!(written(|w| write_uint(w, 0x4286, 1).unwrap()), vec![0x42, 0x86, 0x81, 0x01]);
    assert_eq!(written(|w| write_uint(w, 0xE7, 0).unwrap()), vec![0xE7, 0x81, 0x00]);
    assert_eq!(written(|w| write_uint(w, 0x2AD7B1, 1_000_000).unwrap()), vec![0x2A, 0xD7, 0xB1, 0x83, 0x0F, 0x42, 0x40]);
}

#[test]
fn integer_to_double_bits() {
    for v in [0u64, 1, 2, 3, 44100, 48000, (1 << 53) - 1, 1 << 53, (1 << 53) + 1, (1 << 53) + 3, u64::MAX, 0x1234_5678_9ABC_DEF1] {
        assert_eq!(f64_bits_of_u64(v), (v as f64).to_bits(), "value {v}");
    }
}

#[test]
fn mkv_header_and_blocks() {
    let audio = AudioTrackInfo { sample_rate: 48000, channels: 2, bit_depth: 16 };
    let mut m = MkvMuxer::new(ByteWriter::new(), None, Some(audio)).unwrap();
    let head = m.writer().as_bytes().to_vec();
    assert_eq!(&head[0..4], &[0x1A, 0x45, 0xDF, 0xA3]);
    assert_eq!(m.streams().items[0].codec, "A_PCM/INT/LIT");
    match m.write_packet(Packet::new(vec![1], 0, Time::new(1, 1000)), 0) {
        Err(e) => assert_eq!(e, Error::ZeroTrackNumber),
        Ok(()) => panic!("track zero accepted"),
    }
    assert_eq!(m.writer().len(), head.len());
    m.write_packet(Packet::new(vec![7, 7], 2, Time::new(1, 1000)).with_keyframe(true), 10).unwrap();
    let b = m.writer().as_bytes().to_vec();
    let tail = &b[head.len()..];
    assert_eq!(&tail[0..4], &[0x1F, 0x43, 0xB6, 0x75]);
    assert_eq!(&tail[12..15], &[0xE7, 0x81, 10]);
    assert_eq!(&tail[15..], &[0xA3, 0x86, 0x82, 0x00, 0x00, 0x80, 7, 7]);
    m.write_packet(Packet::new(vec![1], 2, Time::new(1, 1000)), 20).unwrap();
    let c = m.writer().as_bytes().to_vec();
    assert_eq!(&c[b.len()..], &[0xA3, 0x85, 0x82, 0x00, 0x0A, 0x00, 1]);
    m.finalize().unwrap();
    let d = m.writer().as_bytes().to_vec();
    let bits = 20f64.to_bits().to_be_bytes();
    assert!(d.windows(8).any(|w| w == bits));
}

#[test]
fn mkv_video_track_keeps_codec_private() {
    let video = VideoTrackInfo { width: 640, height: 480, codec_private: vec![1, 2, 3] };
    let m = MkvMuxer::new(ByteWriter::new(), Some(video), None).unwrap();
    let s = m.streams();
    assert_eq!(s.items[0].id, 1);
    assert_eq!(s.items[0].codec, "V_MS/VFW/FOURCC");
    assert_eq!(s.items[0].codec_private, vec![1, 2, 3]);
    let b = m.writer().as_bytes().to_vec();
    assert!(b.windows(6).any(|w| w == [0x63, 0xA2, 0x83, 1, 2, 3]));
}

#[test]
fn mp3_sample_rate_detection() {
    assert_eq!(detect_sample_rate(&[0xFF, 0xFB, 0x90, 0x00, 0x00, 0x00]), Some(44100));
    assert_eq!(detect_sample_rate(&[0xFF, 0xFB, 0x94, 0x00, 0x00, 0x00]), Some(48000));
    assert_eq!(detect_sample_rate(&[0xFF, 0xF3, 0x90, 0x00, 0x00, 0x00]), Some(22050));
    assert_eq!(detect_sample_rate(&[0xFF, 0xE3, 0x98, 0x00, 0x00, 0x00]), Some(8000));
    assert_eq!(detect_sample_rate(&[0xFF, 0xFB, 0x9C, 0x00, 0x00, 0x00]), None);
    assert_eq!(detect_sample_rate(&[0xFF, 0xFB, 0x90, 0x00]), None);
}

#[test]
fn mp3_demuxer_skips_the_id3_tag() {
    let mut bytes = b"ID3".to_vec();
    bytes.extend_from_slice(&[4, 0, 0, 0, 0, 0, 2]);
    bytes.extend_from_slice(&[9, 9]);
    bytes.extend_from_slice(&[0xFF, 0xFB, 0x94, 0x00, 0x00, 0x00, 0x11]);
    let mut d = Mp3Demuxer::new(ByteReader::new(bytes)).unwrap();
    assert_eq!(d.sample_rate(), 48000);
    let p = d.read_packet().unwrap().unwrap();
    assert_eq!(p.data, vec![0xFF, 0xFB, 0x94, 0x00, 0x00, 0x00, 0x11]);
    assert!(d.read_packet().unwrap().is_none());
    assert!(d.read_packet().unwrap().is_none());
}

#[test]
fn mp3_demuxer_without_tag_defaults_to_44100() {
    let bytes = vec![1u8; 12];
    let mut d = Mp3Demuxer::new(ByteReader::new(bytes)).unwrap();
    assert_eq!(d.sample_rate(), 44100);
    assert_eq!(d.read_packet().unwrap().unwrap().data.len(), 12);
    match Mp3Demuxer::new(ByteReader::new(vec![0u8; 9])) {
        Err(e) => assert_eq!(e, Error::UnexpectedEof),
        Ok(_) => panic!("accepted nine bytes"),
    }
}

#[test]
fn yuv_frame_sizes() {
    let f = YuvFormat::default();
    assert_eq!((f.width, f.height, f.depth, f.fps_millis), (1920, 1080, 8, 30000));
    assert_eq!(f.frame_size(), 1920 * 1080 * 3 / 2);
    assert_eq!(YuvFormat::new(4, 2, 10, 25000).frame_size(), 24);
    assert_eq!(YuvFormat::new(5, 3, 8, 25000).frame_size(), 15 + 2 * 2);
    assert_eq!(YuvFormat::new(0, 3, 8, 25000).checked_frame_size(), Some(0));
    assert_eq!(f.to_codec_id(), "yuv420p");
}

#[test]
fn yuv_mux_then_demux() {
    let format = YuvFormat::new(4, 2, 8, 25000);
    let mut m = YuvMuxer::new(ByteWriter::new(), format).unwrap();
    let pictures: Vec<Vec<u8>> = (0..3u8).map(|k| (0..12u8).map(|b| b + 16 * k).collect()).collect();
    for p in &pictures {
        m.write_packet(Packet::new(p.clone(), 0, Time::new(1000, 25000))).unwrap();
    }
    m.finalize().unwrap();
    let mut bytes = m.writer().as_bytes().to_vec();
    bytes.extend_from_slice(&[9, 9, 9]);
    let mut d = YuvDemuxer::new(ByteReader::new(bytes), format).unwrap();
    assert_eq!(d.streams().items.len(), 1);
    assert_eq!(d.streams().items[0].codec, "yuv420p");
    assert_eq!(d.streams().items[0].kind, StreamKind::Video);
    assert_eq!(d.streams().items[0].time, Time::new(1000, 25000));
    for (k, p) in pictures.iter().enumerate() {
        let got = d.read_packet().unwrap().unwrap();
        assert_eq!(&got.data, p);
        assert_eq!(got.pts, k as i64);
        assert_eq!(got.keyframe, k == 0);
        assert_eq!(got.time, Time::new(1000, 25000));
    }
    assert!(d.read_packet().unwrap().is_none());
    assert!(d.read_packet().unwrap().is_none());
}

#[test]
fn yuv_refusals() {
    assert_eq!(YuvDemuxer::new(ByteReader::new(vec![]), YuvFormat::new(0, 2, 8, 1)).err(), Some(Error::ZeroFrameSize));
    assert_eq!(YuvDemuxer::new(ByteReader::new(vec![]), YuvFormat::new(2, 2, 8, 0)).err(), Some(Error::ZeroTimeBase));
    let video = Format::Video(VideoFormat { width: 2, height: 2, depth: 8 });
    assert_eq!(YuvMuxer::from_format(ByteWriter::new(), &video).err(), Some(Error::WrongFormat));
    let yuv = YuvFormat::new(2, 2, 8, 1);
    assert!(YuvMuxer::from_format(ByteWriter::new(), &Format::Yuv(yuv)).is_ok());
    let d = ffmpreg::codecs::yuv::YuvDecoder::from_yuv(&yuv);
    assert_eq!((d.width, d.height, d.depth), (2, 2, 8));
}

#[test]
fn avi_open_refuses_sizes_that_underflow() {
    let mut b = b"RIFF".to_vec();
    b.extend_from_slice(&0u32.to_le_bytes());
    b.extend_from_slice(b"AVI LIST");
    b.extend_from_slice(&2u32.to_le_bytes());
    b.extend_from_slice(b"hdrl");
    assert!(AviDemuxer::open(ByteReader::new(b)).is_none());

    let mut b = b"RIFF".to_vec();
    b.extend_from_slice(&0u32.to_le_bytes());
    b.extend_from_slice(b"AVI LIST");
    b.extend_from_slice(&14u32.to_le_bytes());
    b.extend_from_slice(b"movi00dc");
    b.extend_from_slice(&10u32.to_le_bytes());
    b.extend_from_slice(&[7u8; 10]);
    let mut d = AviDemuxer::open(ByteReader::new(b)).unwrap().unwrap();
    assert!(d.next_packet().is_none());

    let mut b = b"RIFX".to_vec();
    b.extend_from_slice(&[0u8; 8]);
    assert!(matches!(AviDemuxer::open(ByteReader::new(b)), Some(Err(Error::BadFourcc { .. }))));
}

#[test]
fn ts_open_refuses_a_section_too_short_for_its_crc() {
    let mut pkt = vec![0x47u8, 0x40, 0x00, 0x10, 0x00, 0x00, 0xB0, 0x00];
    pkt.resize(188, 0xFF);
    assert!(ffmpreg::container::mpegts::demuxer::TsDemuxer::open(ByteReader::new(pkt)).is_none());
}

#[test]
fn raw_pcm_packets_join_to_the_data_written() {

    let format = RawPcmFormat::new(Channels::Stereo, 44100, 16);
    let mut m = RawPcmMuxer::new(ByteWriter::new(), format).unwrap();
    let data: Vec<u8> = (0..70000u32).map(|i| (i % 251) as u8).collect();
    for part in [&data[..1000], &data[1000..40000], &data[40000..]] {
        m.write_packet(Packet::new(part.to_vec(), 0, Time::new(1, 44100))).unwrap();
    }
    m.finalize().unwrap();
    let mut d = RawPcmDemuxer::new(ByteReader::new(m.writer().as_bytes().to_vec()), format).unwrap();
    let mut joined = Vec::new();
    let mut sizes = Vec::new();
    while let Some(p) = d.read_packet().unwrap() {
        sizes.push(p.data.len());
        joined.extend_from_slice(&p.data);
    }
    assert_eq!(sizes, vec![65536, 4464]);
    assert_eq!(joined, data);
}

fn read_vint(bytes: &[u8]) -> (usize, u64) {
    let len = bytes[0].leading_zeros() as usize + 1;
    let mut value = (bytes[0] as u64) & (0xFFu64 >> len);
    for b in &bytes[1..len] {
        value = (value << 8) | *b as u64;
    }
    (len, value)
}

#[test]
fn ebml_size_reads_back() {
    for size in [0u64, 1, 0x7E, 0x7F, 0x80, 0x3FFE, 0x3FFF, 0x4000, 0x1F_FFFE, 0x1F_FFFF, 0x0FFF_FFFE, 0x0FFF_FFFF, 0x1234_5678, 0xFF_FFFF_FFFF_FFFE] {
        let bytes = written(|w| write_size(w, size).unwrap());
        let (len, value) = read_vint(&bytes);
        assert_eq!(len, bytes.len(), "size {size}");
        assert_eq!(value, size, "size {size}");
    }
}

#[test]
fn mp3_packets_join_to_the_audio_data() {
    let mut bytes = b"ID3".to_vec();
    bytes.extend_from_slice(&[4, 0, 0, 0, 0, 0, 3]);
    bytes.extend_from_slice(&[7, 7, 7]);
    let audio: Vec<u8> = (0..20000u32).map(|i| (i % 251) as u8).collect();
    bytes.extend_from_slice(&audio);
    let mut d = Mp3Demuxer::new(ByteReader::new(bytes)).unwrap();
    let mut got = Vec::new();
    let mut pts = Vec::new();
    while let Some(p) = d.read_packet().unwrap() {
        pts.push(p.pts);
        got.extend_from_slice(&p.data);
    }
    assert_eq!(got, audio);
    assert_eq!(pts, (0..pts.len() as i64).collect::<Vec<_>>());
    assert!(d.read_packet().unwrap().is_none());
}

#[test]
fn wav_whole_file_sizes() {
    let format = WavFormat { channels: Channels::Mono, sample_rate: 8000, bit_depth: 16, format_code: 1 };
    let mut m = WavMuxer::new(ByteWriter::new(), format).unwrap();
    m.write_packet(Packet::new(vec![1, 2, 3, 4], 0, Time::new(1, 8000))).unwrap();
    m.write_packet(Packet::new(vec![5, 6], 0, Time::new(1, 8000))).unwrap();
    m.finalize_muxer().unwrap();
    let b = m.writer().as_bytes().to_vec();
    assert_eq!(b.len(), 44 + 6);
    assert_eq!(le32(&b, 4) as usize, b.len() - 8);
    assert_eq!(le32(&b, 40), 6);
    assert_eq!(&b[44..], &[1, 2, 3, 4, 5, 6]);
}

#[test]
fn avi_packets_come_back_in_order() {
    let (v, a) = avi_tracks();
    let mut m = AviMuxer::new(ByteWriter::new(), Some(v), Some(a)).unwrap();
    let written: Vec<(u32, Vec<u8>)> = vec![(0, vec![1, 2, 3]), (1, vec![4]), (0, vec![5, 6]), (1, vec![7, 8, 9, 10])];
    for (sid, data) in &written {
        m.write(Packet::new(data.clone(), *sid, Time::new(1, 25))).unwrap();
    }
    m.finalize().unwrap();
    let bytes = m.writer().as_bytes().to_vec();
    assert_eq!(le32(&bytes, 4) as usize, bytes.len() - 8);
    assert_eq!(le32(&bytes, 48), 2);
    let mut d = AviDemuxer::new(ByteReader::new(bytes)).unwrap();
    let mut got = Vec::new();
    while let Some(p) = d.read_packet().unwrap() {
        got.push((p.stream_id, p.data, p.pts));
    }
    assert_eq!(got.len(), 4);
    for (i, (sid, data, pts)) in got.into_iter().enumerate() {
        assert_eq!(sid, written[i].0);
        assert_eq!(data, written[i].1);
        assert_eq!(pts, i as i64);
    }
}
