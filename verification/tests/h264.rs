use ffmpreg::codecs::frame::{AudioFrame, Frame, VideoFrame};
use ffmpreg::codecs::h264::{encoded_packet, picture_frame, yuv420_planes, DecodedPicture, H264Decoder, H264Encoder};
use ffmpreg::error::Error;
use ffmpreg::media::{Channels, Packet, Time};

fn video(data: Vec<u8>, width: u32, height: u32, depth: u8) -> Frame {
    Frame::Video(VideoFrame { data, width, height, depth, keyframe: true, stream_id: 2, pts: 40 })
}

#[test]
fn picture_frame_strips_row_padding() {
    // 4x2 picture, luma rows 6 bytes apart, chroma rows 3 bytes apart.
    let picture = DecodedPicture {
        dimensions: (4, 2),
        strides: (6, 3, 3),
        y: vec![1, 2, 3, 4, 0, 0, 5, 6, 7, 8, 0, 0],
        u: vec![9, 10, 0],
        v: vec![11, 12, 0],
    };
    match picture_frame(&picture, true, 7, 99).unwrap() {
        Frame::Video(f) => {
            assert_eq!(f.data, vec![1, 2, 3, 4, 5, 6, 7, 8, 9, 10, 11, 12]);
            assert_eq!((f.width, f.height, f.depth), (4, 2, 8));
            assert!(f.keyframe);
            assert_eq!((f.stream_id, f.pts), (7, 99));
        }
        Frame::Audio(_) => panic!("expected a picture"),
    }
}

#[test]
fn picture_frame_refuses_short_planes() {
    let picture = DecodedPicture {
        dimensions: (4, 2),
        strides: (6, 3, 3),
        y: vec![1, 2, 3, 4, 0, 0, 5, 6, 7],
        u: vec![9, 10],
        v: vec![11, 12],
    };
    assert_eq!(picture_frame(&picture, false, 0, 0).err(), Some(Error::MalformedPicture));
}

#[test]
fn yuv420_planes_splits_luma_and_chroma() {
    let data: Vec<u8> = (0..14).collect();
    let (y, u, v) = yuv420_planes(&data, 4, 2).unwrap();
    assert_eq!(y, &[0, 1, 2, 3, 4, 5, 6, 7]);
    assert_eq!(u, &[8, 9]);
    assert_eq!(v, &[10, 11]);
    assert!(yuv420_planes(&data[..11], 4, 2).is_none());
}

#[test]
fn encoded_packet_is_timed_by_fps() {
    assert!(encoded_packet(vec![], 1, 2, true, 25).is_none());
    let p = encoded_packet(vec![0, 0, 1], 1, 2, true, 25).unwrap();
    assert_eq!(p.data, vec![0, 0, 1]);
    assert_eq!((p.stream_id, p.pts, p.keyframe), (1, 2, true));
    assert_eq!(p.time, Time::new(1, 25));
}

#[test]
fn h264_encoder_checks_its_input() {
    let mut e = H264Encoder::new(30).unwrap();
    assert_eq!(e.fps(), 30);
    let audio = Frame::Audio(AudioFrame {
        data: vec![0; 4],
        sample_rate: 8000,
        channels: Channels::Mono,
        bit_depth: 16,
        stream_id: 0,
        pts: 0,
    });
    assert!(e.encode(audio).unwrap().is_none());
    assert_eq!(e.encode(video(vec![0; 384], 16, 16, 10)).err(), Some(Error::WrongFormat));
    assert_eq!(e.encode(video(vec![0; 383], 16, 16, 8)).err(), Some(Error::FrameTooSmall));
    assert!(e.flush().unwrap().is_none());
}

#[test]
fn h264_encode_then_decode_gives_the_picture_size_back() {
    let mut e = H264Encoder::new(25).unwrap();
    let mut data = vec![128u8; 16 * 16];
    data.extend(vec![128u8; 2 * 8 * 8]);
    let packet = e.encode(video(data, 16, 16, 8)).unwrap().expect("a keyframe");
    assert!(!packet.data.is_empty());
    assert_eq!((packet.stream_id, packet.pts, packet.keyframe), (2, 40, true));
    assert_eq!(packet.time, Time::new(1, 25));

    let mut d = H264Decoder::new().unwrap();
    assert!(d.decode(Packet::new(vec![], 0, Time::new(1, 25))).unwrap().is_none());
    match d.decode(packet).unwrap() {
        Some(Frame::Video(f)) => {
            assert_eq!((f.width, f.height, f.depth), (16, 16, 8));
            assert_eq!(f.data.len(), 16 * 16 + 2 * 8 * 8);
            assert_eq!((f.stream_id, f.pts), (2, 40));
        }
        other => panic!("expected a picture, got {:?}", other.is_some()),
    }
    assert!(d.flush().unwrap().is_none());
}
