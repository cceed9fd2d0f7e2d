use ffmpreg::codecs::frame::{AudioFrame, Frame, VideoFrame};
use ffmpreg::codecs::pcm::{PcmDecoder, PcmEncoder};
use ffmpreg::codecs::yuv::{YuvDecoder, YuvEncoder};
use ffmpreg::container::yuv::YuvFormat;
use ffmpreg::container::flac::demuxer::FlacDemuxer;
use ffmpreg::container::flac::format::FlacFormat;
use ffmpreg::container::flac::muxer::FlacMuxer;
use ffmpreg::container::mpegts::demuxer::TsDemuxer;
use ffmpreg::container::mpegts::{TsAudioTrack, TsMuxer, TsVideoTrack};
use ffmpreg::container::wav::format::WavFormat;
use ffmpreg::container::wav::samples::{pcm16_bytes, pcm16_samples, pcm24_bytes, pcm24_samples};
use ffmpreg::error::Error;
use ffmpreg::io::{ByteReader, ByteWriter};
use ffmpreg::media::{Channels, Packet, StreamKind, Time, VideoFormat};

#[test]
fn pcm_decoder_makes_one_frame_per_packet() {
    let wav = WavFormat { channels: Channels::Stereo, sample_rate: 48000, bit_depth: 24, format_code: 1 };
    let mut d = PcmDecoder::from_format(&wav);
    assert_eq!(d.bit_depth, 24);
    assert!(d.decode(Packet::new(vec![], 0, Time::new(1, 48000))).unwrap().is_empty());
    let frames = d.decode(Packet::new(vec![1, 2, 3, 4, 5, 6], 3, Time::new(1, 48000)).with_pts(7)).unwrap();
    assert_eq!(frames.len(), 1);
    match &frames[0] {
        Frame::Audio(a) => {
            assert_eq!(a.data, vec![1, 2, 3, 4, 5, 6]);
            assert_eq!((a.sample_rate, a.bit_depth, a.stream_id, a.pts), (48000, 24, 3, 7));
        },
        _ => panic!("not audio"),
    }
    assert!(d.finish().unwrap().is_empty());
    let odd = WavFormat { channels: Channels::Mono, sample_rate: 8000, bit_depth: 20, format_code: 1 };
    assert_eq!(PcmDecoder::from_wav(&odd).bit_depth, 16);
}

#[test]
fn pcm_encoder_packs_frames() {
    let wav = WavFormat { channels: Channels::Mono, sample_rate: 8000, bit_depth: 32, format_code: 3 };
    let e = PcmEncoder::from_format(&wav);
    assert_eq!(e.target_bit_depth, Some(32));
    let f = PcmEncoder::make_wav_format(32, Channels::Mono, 8000);
    assert_eq!(f.format_code, 3);
    assert_eq!(PcmEncoder::make_wav_format(16, Channels::Mono, 8000).format_code, 1);
    let mut plain = PcmEncoder::new(8000);
    let mut d = PcmDecoder::new(8000, Channels::Mono, 16);
    let frame = d.decode(Packet::new(vec![9, 9], 1, Time::new(1, 8000)).with_pts(5)).unwrap().remove(0);
    let packets = plain.encode_unconverted(frame).unwrap();
    assert_eq!(packets.len(), 1);
    assert_eq!(packets[0].data, vec![9, 9]);
    assert_eq!((packets[0].stream_id, packets[0].pts), (1, 5));
    assert_eq!(packets[0].time, Time::new(1, 8000));
    let mut zero = PcmEncoder::new(0);
    let frame = d.decode(Packet::new(vec![1], 0, Time::new(1, 8000))).unwrap().remove(0);
    assert!(matches!(zero.encode_unconverted(frame), Err(Error::ZeroTimeBase)));
    let mut y = YuvDecoder::new(2, 2, 8);
    let picture = y.decode(Packet::new(vec![0; 6], 0, Time::new(1, 30))).unwrap().remove(0);
    assert!(matches!(plain.encode_unconverted(picture), Err(Error::WrongFrameKind)));
}

#[test]
fn yuv_decoder_makes_pictures() {
    let mut y = YuvDecoder::from_format(&VideoFormat { width: 4, height: 2, depth: 8 });
    assert_eq!((y.width, y.height, y.depth), (4, 2, 8));
    let frames = y.decode(Packet::new(vec![1; 12], 0, Time::new(1, 25)).with_keyframe(true)).unwrap();
    match &frames[0] {
        Frame::Video(v) => {
            assert!(v.keyframe);
            assert_eq!(v.data.len(), 12);
        },
        _ => panic!("not video"),
    }
    assert!(y.decode(Packet::new(vec![], 0, Time::new(1, 25))).unwrap().is_empty());
}

#[test]
fn flac_header_round_trip_keeps_channels_and_depth() {
    let format = FlacFormat::new(Channels::Count(6), 48000, 24);
    let m = FlacMuxer::new(ByteWriter::new(), format).unwrap();
    let bytes = m.writer().as_bytes().to_vec();
    let d = FlacDemuxer::new(ByteReader::new(bytes)).unwrap();
    let f = d.format();
    assert_eq!(f.channels.count(), 6);
    assert_eq!(f.bit_depth, 24);
    assert_eq!(f.sample_rate, 48000);
}

#[test]
fn flac_header_round_trip_keeps_the_rate() {
    let format = FlacFormat::new(Channels::Stereo, 44100, 16);
    let m = FlacMuxer::new(ByteWriter::new(), format).unwrap();
    let bytes = m.writer().as_bytes().to_vec();
    assert_eq!(&bytes[18..21], &[0x0A, 0xC4, 0x42]);
    let d = FlacDemuxer::new(ByteReader::new(bytes)).unwrap();
    assert_eq!(d.format().sample_rate, 44100);
    assert_eq!(d.format().channels, Channels::Stereo);
    assert_eq!(d.format().bit_depth, 16);
}

#[test]
fn flac_demux_hands_out_the_frame_data() {
    let format = FlacFormat::new(Channels::Stereo, 44100, 16);
    let m = FlacMuxer::new(ByteWriter::new(), format).unwrap();
    let mut bytes = m.writer().as_bytes().to_vec();
    let frames: Vec<u8> = (0..70000u32).map(|i| (i % 253) as u8).collect();
    bytes.extend_from_slice(&frames);
    let mut d = FlacDemuxer::new(ByteReader::new(bytes)).unwrap();
    let mut got = Vec::new();
    let mut pts = Vec::new();
    while let Some(p) = d.read_packet().unwrap() {
        assert!(p.data.len() <= 65536);
        pts.push(p.pts);
        got.extend_from_slice(&p.data);
    }
    assert_eq!(got, frames);
    assert_eq!(pts, vec![0, 16384]);
}

#[test]
fn ts_mux_then_demux() {
    let mut m = TsMuxer::new(ByteWriter::new(), Some(TsVideoTrack::h264()), Some(TsAudioTrack::aac())).unwrap();
    let video: Vec<u8> = (0..300u32).map(|i| (i % 251) as u8).collect();
    m.write(Packet::new(video.clone(), 0x100, Time::new(1, 90000)).with_keyframe(true), 3000).unwrap();
    m.write(Packet::new(vec![5, 6, 7], 0x101, Time::new(1, 90000)), 1500).unwrap();
    m.write(Packet::new(vec![8, 9], 0x100, Time::new(1, 90000)), 6000).unwrap();
    let bytes = m.writer().as_bytes().to_vec();
    let mut d = TsDemuxer::new(ByteReader::new(bytes)).unwrap();
    let s = d.streams();
    assert_eq!(s.len(), 2);
    assert_eq!(s.items[0].kind, StreamKind::Video);
    assert_eq!(s.items[0].codec, "h264");
    assert_eq!(s.items[1].codec, "aac");
    let mut got = Vec::new();
    while let Some(p) = d.read_packet().unwrap() {
        got.push((p.stream_id, p.pts, p.data));
    }
    assert_eq!(got.len(), 3);
    assert!(got.contains(&(0, 3000, video)));
    assert!(got.contains(&(1, 1500, vec![5, 6, 7])));
    assert!(got.contains(&(0, 6000, vec![8, 9])));
}

#[test]
fn pcm_sample_words() {

    assert_eq!(pcm16_samples(&[0x00, 0x80, 0xff, 0x7f, 0xff, 0xff]).unwrap(), vec![-32768, 32767, -1]);
    assert_eq!(pcm16_samples(&[1, 2, 3]), Err(Error::InvalidPcmLength));
    assert_eq!(pcm16_bytes(&[-32768, 32767, -1, 258]), vec![0x00, 0x80, 0xff, 0x7f, 0xff, 0xff, 2, 1]);
    assert_eq!(pcm24_samples(&[0x00, 0x00, 0x80, 0xff, 0xff, 0x7f, 0xfe, 0xff, 0xff]).unwrap(), vec![-8388608, 8388607, -2]);
    assert_eq!(pcm24_samples(&[1, 2]), Err(Error::InvalidPcmLength));
    assert_eq!(pcm24_bytes(&[-8388608, 8388607, -2, 0x1234567]), vec![0, 0, 0x80, 0xff, 0xff, 0x7f, 0xfe, 0xff, 0xff, 0x67, 0x45, 0x23]);
    let words: Vec<i16> = vec![0, 1, -1, 12345, -12345];
    assert_eq!(pcm16_samples(&pcm16_bytes(&words)).unwrap(), words);
    let words: Vec<i32> = vec![0, 1, -1, 0x7fffff, -0x800000, 4660];
    assert_eq!(pcm24_samples(&pcm24_bytes(&words)).unwrap(), words);
}

#[test]
fn yuv_encoder_makes_one_packet_per_picture() {
    let mut e = YuvEncoder::from_format(&YuvFormat::new(2, 2, 8, 25000));
    let pic = VideoFrame { data: vec![1, 2, 3, 4, 5, 6], width: 2, height: 2, depth: 8, keyframe: true, stream_id: 3, pts: 7 };
    let out = e.encode(Frame::Video(pic)).unwrap();
    assert_eq!(out.len(), 1);
    assert_eq!(out[0].data, vec![1, 2, 3, 4, 5, 6]);
    assert_eq!(out[0].stream_id, 3);
    assert_eq!(out[0].pts, 7);
    assert!(out[0].keyframe);
    assert_eq!(out[0].time, Time::new(1000, 25000));
    let empty = VideoFrame { data: vec![], width: 2, height: 2, depth: 8, keyframe: false, stream_id: 0, pts: 0 };
    assert!(e.encode(Frame::Video(empty)).unwrap().is_empty());
    let audio = AudioFrame { data: vec![0; 4], sample_rate: 8000, channels: Channels::Mono, bit_depth: 16, stream_id: 0, pts: 0 };
    assert!(matches!(e.encode(Frame::Audio(audio)), Err(Error::WrongFrameKind)));
    let mut z = YuvEncoder::from_format(&YuvFormat::new(2, 2, 8, 0));
    let pic = VideoFrame { data: vec![1], width: 2, height: 2, depth: 8, keyframe: false, stream_id: 0, pts: 0 };
    assert!(matches!(z.encode(Frame::Video(pic)), Err(Error::ZeroTimeBase)));
    assert!(e.finish().unwrap().is_empty());
}
