use ffmpreg::codecs::register::{register_codecs, register_pcm_codecs, CodecDecoder, CodecEncoder, DecoderFactory, EncoderFactory};
use ffmpreg::codecs::ids::register_codecs_ids;
use ffmpreg::container::register::{
    register_containers, yuv_container, ContainerDemuxer, ContainerMuxer, DemuxerFactory, MuxerFactory,
};
use ffmpreg::container::wav::format::WavFormat;
use ffmpreg::container::wav::muxer::WavMuxer;
use ffmpreg::container::yuv::YuvFormat;
use ffmpreg::error::Error;
use ffmpreg::io::{ByteReader, ByteWriter};
use ffmpreg::media::{Channels, Format, Packet, Time, VideoFormat};

fn wav_format() -> WavFormat {
    WavFormat { channels: Channels::Stereo, sample_rate: 48000, bit_depth: 24, format_code: 1 }
}

#[test]
fn codecs_registered_by_name() {
    let codecs = register_codecs();
    for name in ["pcm_s16le", "pcm_s24le", "pcm_f32le", "yuv420p"] {
        assert!(codecs.contains(name), "{name}");
    }
    for name in ["pcm", "h264", "mp3", ""] {
        assert!(!codecs.contains(name), "{name}");
    }
}

#[test]
fn pcm_codec_opens_both_sides_at_a_wave_format() {
    let codecs = register_codecs();
    let wav = Format::Wav(wav_format());
    match codecs.decoder_for("pcm_s24le", &wav).unwrap() {
        CodecDecoder::Pcm(d) => {
            assert_eq!(d.sample_rate, 48000);
            assert_eq!(d.channels, Channels::Stereo);
            assert_eq!(d.bit_depth, 24);
        }
        other => panic!("{:?}", other),
    }
    match codecs.encoder_for("pcm_f32le", &wav).unwrap() {
        CodecEncoder::Pcm(e) => {
            assert_eq!(e.sample_rate, 48000);
            assert_eq!(e.target_bit_depth, Some(24));
        }
        other => panic!("{:?}", other),
    }
    let video = Format::Video(VideoFormat { width: 4, height: 2, depth: 8 });
    assert_eq!(codecs.decoder_for("pcm_s16le", &video).unwrap_err(), Error::WrongFormat);
    assert_eq!(codecs.encoder_for("pcm_s16le", &video).unwrap_err(), Error::WrongFormat);
}

#[test]
fn yuv_codec_decodes_and_encodes_raw_video() {
    let codecs = register_codecs();
    let video = Format::Video(VideoFormat { width: 4, height: 2, depth: 10 });
    match codecs.decoder_for("yuv420p", &video).unwrap() {
        CodecDecoder::Yuv(d) => assert_eq!((d.width, d.height, d.depth), (4, 2, 10)),
        other => panic!("{:?}", other),
    }
    let yuv = Format::Yuv(YuvFormat::new(16, 8, 8, 25000));
    match codecs.decoder_for("yuv420p", &yuv).unwrap() {
        CodecDecoder::Yuv(d) => assert_eq!((d.width, d.height, d.depth), (16, 8, 8)),
        other => panic!("{:?}", other),
    }
    assert_eq!(codecs.decoder_for("yuv420p", &Format::Wav(wav_format())).unwrap_err(), Error::WrongFormat);
    match codecs.encoder_for("yuv420p", &yuv).unwrap() {
        CodecEncoder::Yuv(e) => assert_eq!(e.format, YuvFormat::new(16, 8, 8, 25000)),
        other => panic!("{:?}", other),
    }
    assert_eq!(codecs.encoder_for("yuv420p", &video).unwrap_err(), Error::WrongFormat);
    assert_eq!(codecs.encoder_for("yuv420p", &Format::Wav(wav_format())).unwrap_err(), Error::WrongFormat);
}

#[test]
fn unknown_codec_is_refused() {
    let codecs = register_codecs();
    let wav = Format::Wav(wav_format());
    assert_eq!(codecs.decoder_for("h264", &wav).unwrap_err(), Error::UnknownCodec);
    assert_eq!(codecs.encoder_for("h264", &wav).unwrap_err(), Error::UnknownCodec);
}

#[test]
fn registering_twice_keeps_one_entry() {
    let mut codecs = register_codecs();
    register_pcm_codecs(&mut codecs);
    assert!(codecs.contains("pcm_s16le"));
    assert!(codecs.contains("yuv420p"));
}

#[test]
fn factories_open_directly() {
    let wav = Format::Wav(wav_format());
    assert!(matches!(DecoderFactory::Pcm.open(&wav), Ok(CodecDecoder::Pcm(_))));
    assert!(matches!(EncoderFactory::Pcm.open(&wav), Ok(CodecEncoder::Pcm(_))));
    assert_eq!(DecoderFactory::Yuv.open(&wav).unwrap_err(), Error::WrongFormat);
}

fn wav_file() -> Vec<u8> {
    let mut m = WavMuxer::new(ByteWriter::new(), wav_format()).unwrap();
    m.write_packet(Packet::new(vec![1, 2, 3, 4, 5, 6], 0, Time::new(1, 48000))).unwrap();
    m.finalize_muxer().unwrap();
    m.writer().as_bytes().to_vec()
}

#[test]
fn containers_register_wave_only() {
    let (containers, extensions) = register_containers();
    assert_eq!(extensions.container_for("wav").unwrap(), "wav");
    assert_eq!(extensions.container_for("yuv").unwrap_err(), Error::UnknownContainer);
    match containers.demuxer_for("wav", ByteReader::new(wav_file())).unwrap() {
        ContainerDemuxer::Wav(d) => {
            assert_eq!(d.format().sample_rate, 48000);
            assert_eq!(d.streams().items[0].codec, "pcm_s24le");
        }
        ContainerDemuxer::Yuv(_) => panic!("expected the WAVE demuxer"),
    }
    assert!(matches!(
        containers.demuxer_for("yuv", ByteReader::new(vec![0; 16])),
        Err(Error::UnknownContainer)
    ));
    assert!(matches!(
        containers.demuxer_for("wav", ByteReader::new([b"RIFX".as_slice(), &[0u8; 40]].concat())),
        Err(Error::BadFourcc { expected: 0x52494646, found: 0x52494658 })
    ));
}

#[test]
fn yuv_container_reads_at_the_default_layout() {
    let (mut containers, mut extensions) = register_containers();
    yuv_container(&mut containers, &mut extensions);
    assert_eq!(extensions.container_for("yuv").unwrap(), "yuv");
    assert_eq!(extensions.container_for("wav").unwrap(), "wav");
    match containers.demuxer_for("yuv", ByteReader::new(vec![0; 16])).unwrap() {
        ContainerDemuxer::Yuv(d) => {
            let f = d.format();
            assert_eq!((f.width, f.height, f.depth, f.fps_millis), (1920, 1080, 8, 30000));
        }
        ContainerDemuxer::Wav(_) => panic!("expected the raw YUV demuxer"),
    }
}

#[test]
fn muxer_factories_take_their_own_format() {
    let wav = Format::Wav(wav_format());
    let yuv = Format::Yuv(YuvFormat::new(16, 8, 8, 25000));
    match MuxerFactory::Wav.open(ByteWriter::new(), &wav).unwrap() {
        ContainerMuxer::Wav(m) => assert_eq!(&m.writer().as_bytes()[0..4], b"RIFF"),
        ContainerMuxer::Yuv(_) => panic!("expected the WAVE muxer"),
    }
    assert!(matches!(MuxerFactory::Wav.open(ByteWriter::new(), &yuv), Err(Error::WrongFormat)));
    assert!(matches!(MuxerFactory::Yuv.open(ByteWriter::new(), &yuv), Ok(ContainerMuxer::Yuv(_))));
    assert!(matches!(MuxerFactory::Yuv.open(ByteWriter::new(), &wav), Err(Error::WrongFormat)));
    assert!(matches!(DemuxerFactory::Yuv.open(ByteReader::new(Vec::new())), Ok(ContainerDemuxer::Yuv(_))));
}

#[test]
fn codec_ids_by_name_alias_and_extension() {
    let (ids, exts) = register_codecs_ids();
    assert_eq!(ids.find("aac").unwrap().name, "aac");
    assert_eq!(ids.find("pcm").unwrap().name, "pcm_s16le");
    assert_eq!(ids.find("hevc").unwrap().name, "h265");
    assert_eq!(ids.find("yuv420p").unwrap().exts, &["yuv"]);
    assert!(ids.find("mp4").is_none());
    assert!(ids.find("").is_none());
    // A later codec takes a primary extension over from an earlier one.
    assert_eq!(exts.find("wav").unwrap().name, "pcm_s16le");
    assert_eq!(exts.find("ogg").unwrap().name, "vorbis");
    assert_eq!(exts.find("mkv").unwrap().name, "av1");
    assert_eq!(exts.find("ogv").unwrap().name, "theora");
    assert_eq!(exts.find("mp4").unwrap().name, "mpeg4");
    assert_eq!(exts.find("m4a").unwrap().name, "alac");
    assert!(exts.find("ape").is_none());
    assert_eq!(exts.find("mov").unwrap().name, "prores");
    assert_eq!(exts.find("mxf").unwrap().name, "dnxhr");
    assert_eq!(exts.find("avi").unwrap().name, "mjpeg");
    assert!(exts.find("mjpg").is_none());
    assert_eq!(ids.find("ape").unwrap().primary_extension(), None);
    assert_eq!(ids.find("opus").unwrap().primary_extension(), Some("opus"));
}
