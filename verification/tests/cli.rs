use ffmpreg::cli::args::{BaseOptions, Cli, Command, ConvertOptions, JsonOption};
use ffmpreg::cli::codec_option::codec_in;
use ffmpreg::codecs::register::register_codecs;
use ffmpreg::cli::executor::{execute, get_extension, PipelineKind};
use ffmpreg::cli::builder::Builder;
use ffmpreg::cli::flag::Flag;
use ffmpreg::cli::parse::parse_common;
use ffmpreg::cli::iter::{ArgIter, Iter};
use ffmpreg::cli::parser::{parse_cli, parse_command_base, parse_convert};
use ffmpreg::cli::pipeline::flac::{run as flac_run, FlacInput};
use ffmpreg::cli::pipeline::ts::run as ts_run;
use ffmpreg::cli::runner::{runner, Task};
use ffmpreg::container::container::ContainerId;
use ffmpreg::container::wav::format::WavFormat;
use ffmpreg::error::Error;
use ffmpreg::media::Channels;

fn args(v: &[&str]) -> Vec<String> {
    v.iter().map(|s| s.to_string()).collect()
}

#[test]
fn flags_by_short_and_long_name() {
    assert!(matches!(Flag::parse("-i"), Some(Flag::Input)));
    assert!(matches!(Flag::parse("--input"), Some(Flag::Input)));
    assert!(matches!(Flag::parse("-o"), Some(Flag::Output)));
    assert!(matches!(Flag::parse("--audio"), Some(Flag::Audio)));
    assert!(matches!(Flag::parse("-v"), Some(Flag::Video)));
    assert!(matches!(Flag::parse("-s"), Some(Flag::Subtitle)));
    assert!(matches!(Flag::parse("--apply"), Some(Flag::Apply)));
    assert!(matches!(Flag::parse("--json"), Some(Flag::Json)));
    assert!(Flag::parse("-x").is_none());
    assert!(Flag::parse("input").is_none());
}

#[test]
fn a_conversion_with_stream_options() {
    let cli = parse_cli(args(&["ffmpreg", "-i", "a.wav", "-o", "b.flac", "-a", "codec=pcm_s24le", "rate=48000", "-t", "gain"]))
        .unwrap();
    match cli {
        Cli::Convert(c) => {
            assert_eq!(c.input, "a.wav");
            assert_eq!(c.output, "b.flac");
            assert_eq!(c.base.audio, vec!["codec=pcm_s24le rate=48000".to_string()]);
            assert_eq!(c.base.apply, vec!["gain".to_string()]);
            assert!(c.base.video.is_empty());
        },
        _ => panic!("not a conversion"),
    }
}

#[test]
fn probe_takes_json() {
    let cli = parse_cli(args(&["ffmpreg", "probe", "-i", "a.wav", "--json", "pretty"])).unwrap();
    match cli {
        Cli::Command(Command::Probe(p)) => {
            assert_eq!(p.input, "a.wav");
            assert!(p.output.is_none());
            assert!(matches!(p.json, Some(JsonOption::Pretty)));
        },
        _ => panic!("not probe"),
    }
    let cli = parse_cli(args(&["ffmpreg", "probe", "-i", "a.wav", "--json", "x"])).unwrap();
    match cli {
        Cli::Command(Command::Probe(p)) => assert!(matches!(p.json, Some(JsonOption::Raw))),
        _ => panic!("not probe"),
    }
}

#[test]
fn parse_errors() {
    let e = |v: &[&str]| match parse_cli(args(v)) {
        Err(e) => e,
        Ok(_) => panic!("accepted {v:?}"),
    };
    assert_eq!(e(&["ffmpreg", "-i", "a.wav"]), Error::MissingOutput);
    assert_eq!(e(&["ffmpreg", "-o", "b.wav"]), Error::MissingInput);
    assert_eq!(e(&["ffmpreg", "-i", "a.wav", "x"]), Error::UnknownFlag);
    assert_eq!(e(&["ffmpreg", "-i"]), Error::MissingValue);
    assert_eq!(e(&["ffmpreg", "play", "-i", "a.wav", "--json", "raw"]), Error::JsonNotAllowed);
    assert_eq!(e(&["ffmpreg", "-i", "a.wav", "-o", "b.wav", "--json", "raw"]), Error::JsonNotAllowed);
}

#[test]
fn play_keeps_an_output() {
    match parse_cli(args(&["ffmpreg", "play", "-i", "a.wav", "-o", "x.wav"])).unwrap() {
        Cli::Command(Command::Play(p)) => {
            assert_eq!(p.input, "a.wav");
            assert_eq!(p.output.as_deref(), Some("x.wav"));
        },
        _ => panic!("not play"),
    }
}

#[test]
fn command_base_reads_every_flag() {
    let mut it = ArgIter::new(args(&["-i", "in.wav", "-v", "a", "b", "-s", "c"]));
    let (input, output, base, json) = parse_command_base(&mut it, false).unwrap();
    assert_eq!(input, "in.wav");
    assert!(output.is_none());
    assert!(json.is_none());
    assert_eq!(base.video, vec!["a b".to_string()]);
    assert_eq!(base.subtitle, vec!["c".to_string()]);
    let mut it = ArgIter::new(args(&["-i", "in.wav"]));
    assert!(matches!(parse_convert(&mut it), Err(Error::MissingOutput)));
}

#[test]
fn loose_syntax() {
    let cli = Cli::parse(args(&["ffmpreg", "-i", "/", "-o", "out.wav", "--audio", "x", "y"])).unwrap();
    match cli {
        Cli::Convert(c) => {
            assert_eq!(c.input, "/");
            assert_eq!(c.output, "out.wav");
            assert_eq!(c.base.audio, vec!["x y".to_string()]);
        },
        _ => panic!("not a conversion"),
    }
    assert!(matches!(Cli::parse(args(&["ffmpreg", "-i", "/no/such/path/at/all"])), Err(Error::PathNotFound)));
    assert!(matches!(Cli::parse(args(&["ffmpreg", "-a", "x"])), Err(Error::UnexpectedArgument)));
    assert!(matches!(Cli::parse(args(&["ffmpreg", "play", "-i", "/", "-o", "x"])), Err(Error::UnexpectedArgument)));
    match Cli::parse(args(&["ffmpreg", "probe", "-i", "/", "-o", "x"])).unwrap() {
        Cli::Command(Command::Probe(p)) => assert_eq!(p.output.as_deref(), Some("x")),
        _ => panic!("not probe"),
    }
    assert!(matches!(Cli::parse(args(&["ffmpreg", "probe"])), Err(Error::MissingInput)));
}

#[test]
fn extensions_and_pipelines() {
    assert_eq!(get_extension("dir/song.flac").unwrap(), "flac");
    assert_eq!(get_extension("a.b.wav").unwrap(), "wav");
    assert!(matches!(get_extension("noext"), Err(Error::MissingExtension)));
    assert!(matches!(get_extension("trailing."), Err(Error::MissingExtension)));
    let opts = |i: &str, o: &str| ConvertOptions {
        input: i.to_string(),
        output: o.to_string(),
        base: ffmpreg::cli::args::BaseOptions::new(),
    };
    assert!(matches!(execute(&opts("a.wav", "b.flac")), Ok(PipelineKind::Flac)));
    assert!(matches!(execute(&opts("a.wav", "b.jpg")), Ok(PipelineKind::Jpeg)));
    assert!(matches!(execute(&opts("a.wav", "b.ts")), Ok(PipelineKind::Ts)));
    assert!(matches!(execute(&opts("a.wav", "b.xyz")), Err(Error::UnsupportedContainer)));
    assert!(matches!(execute(&opts("a", "b.wav")), Err(Error::MissingExtension)));
}

#[test]
fn runner_dispatches() {
    let cli = parse_cli(args(&["ffmpreg", "-i", "a.wav", "-o", "b.wav"])).unwrap();
    assert!(matches!(runner(cli), Task::Convert(_)));
    let cli = parse_cli(args(&["ffmpreg", "probe", "-i", "a.wav"])).unwrap();
    assert!(matches!(runner(cli), Task::Probe(_)));
}

#[test]
fn flac_pipeline_decisions() {
    let wav = WavFormat { channels: Channels::Mono, sample_rate: 8000, bit_depth: 16, format_code: 1 };
    let p = flac_run("wav", Some(wav), None).unwrap();
    assert_eq!(p.input, FlacInput::Wav);
    assert_eq!(p.source.sample_rate, 8000);
    assert_eq!(p.target.bit_depth, 16);
    assert!(!p.convert);
    let p = flac_run("wav", Some(wav), Some("pcm_s24le")).unwrap();
    assert_eq!(p.target.bit_depth, 24);
    assert!(p.convert);
    let p = flac_run("raw", None, None).unwrap();
    assert_eq!(p.input, FlacInput::Raw);
    assert_eq!(p.source.sample_rate, 44100);
    assert!(matches!(flac_run("mp3", None, None), Err(Error::UnsupportedFlacInput)));
    assert!(matches!(flac_run("raw", None, Some("opus")), Err(Error::UnsupportedFlacCodec)));
    assert!(matches!(ts_run(), Err(Error::NotImplemented)));
}

#[test]
fn container_ids() {
    let c = ContainerId::new("tiff");
    assert_eq!(c.name, "tiff");
    assert!(c.extensions.is_empty());
    let c = c.exts(&["tiff", "tif"]);
    assert_eq!(c.extensions, &["tiff", "tif"]);
}

#[test]
fn iter_trims_tokens_and_skips_the_program_name() {
    let mut it = Iter::new(args(&["ffmpreg", "  probe ", "\t-i\n", "a b"]));
    assert_eq!(it.peek(), Some("probe"));
    assert_eq!(it.expect("probe"), Ok(()));
    assert_eq!(it.expect("-o"), Err(Error::UnexpectedArgument));
    assert_eq!(it.next(), Some("a b".to_string()));
    assert_eq!(it.next(), None);
    assert_eq!(it.expect("x"), Err(Error::MissingValue));
    assert!(Iter::new(vec![]).next().is_none());
}

#[test]
fn take_until_flag_joins_and_trims() {
    let mut it = Iter::new(args(&["bin", "a", " ", "b", "-x", "c"]));
    assert_eq!(it.take_until_flag(), Ok("a b".to_string()));
    assert_eq!(it.next(), Some("-x".to_string()));
    assert_eq!(it.take_until_flag(), Ok("c".to_string()));
    assert_eq!(it.take_until_flag(), Ok(String::new()));
}

#[test]
fn trim_follows_unicode_white_space() {
    assert_eq!(ffmpreg::text::trim("\u{3000} x y\u{a0}\r\n"), "x y");
    assert_eq!(ffmpreg::text::trim("\u{200b}x"), "\u{200b}x");
    assert_eq!(ffmpreg::text::trim("   "), "");
    for c in ['\t', '\u{85}', '\u{1680}', '\u{2005}', '\u{2028}', '\u{202f}', '\u{205f}', 'a', '\u{200b}', '\u{feff}'] {
        assert_eq!(ffmpreg::text::is_whitespace(c), c.is_whitespace(), "{:?}", c);
    }
    for n in 0u32..=0x10ffff {
        if let Some(c) = char::from_u32(n) {
            assert_eq!(ffmpreg::text::is_whitespace(c), c.is_whitespace(), "{:x}", n);
        }
    }
}

#[test]
fn loose_syntax_checks_paths_in_order() {
    // A missing input path is reported where it is read, before a later bad token.
    let mut it = Iter::new(args(&["ffmpreg", "-i", "/no/such/path/at/all", "-x"]));
    assert!(matches!(parse_common(&mut it, true), Err(Error::PathNotFound)));
    assert_eq!(it.peek(), Some("-x"));
    // A bad token before any input path is reported as such.
    let mut it = Iter::new(args(&["ffmpreg", "-x", "-i", "/no/such/path/at/all"]));
    assert!(matches!(parse_common(&mut it, true), Err(Error::UnexpectedArgument)));
    assert_eq!(it.peek(), Some("-x"));
    // Every path read exists: all tokens are read.
    let mut it = Iter::new(args(&["ffmpreg", "-i", "/", "--video", "a", "b", "-o", "o.yuv"]));
    let raw = parse_common(&mut it, true).unwrap();
    assert_eq!(raw.input.as_deref(), Some("/"));
    assert_eq!(raw.output.as_deref(), Some("o.yuv"));
    assert_eq!(raw.base.video, vec!["a b".to_string()]);
    assert_eq!(it.peek(), None);
    // No input path at all.
    let mut it = Iter::new(args(&["ffmpreg"]));
    let raw = parse_common(&mut it, true).unwrap();
    assert!(raw.input.is_none());
    assert!(matches!(Cli::parse(args(&["ffmpreg", "-o", "x"])), Err(Error::MissingInput)));
    assert!(matches!(Cli::parse(args(&["ffmpreg", "-i", "/"])), Err(Error::MissingOutput)));
}

#[test]
fn failed_flag_leaves_builder_and_tokens() {
    let mut b = Builder::new();
    let mut it = ArgIter::new(args(&["pretty"]));
    assert!(matches!(b.apply(Flag::Json, &mut it, false), Err(Error::JsonNotAllowed)));
    assert_eq!(it.next().as_deref(), Some("pretty"));
    let mut it = ArgIter::new(args(&[]));
    assert!(matches!(b.apply(Flag::Input, &mut it, false), Err(Error::MissingValue)));
    assert!(matches!(b.build(), Err(Error::MissingInput)));
    let mut it = ArgIter::new(args(&["-i", "a.wav", "--audio", "x"]));
    assert!(parse_command_base(&mut it, false).is_ok());
    assert_eq!(it.next(), None);
}

#[test]
fn codec_named_in_audio_options() {
    assert_eq!(codec_in("rate=48000 codec=pcm_s24le").as_deref(), Some("pcm_s24le"));
    assert_eq!(codec_in("  codec=flac\tgain=2").as_deref(), Some("flac"));
    assert_eq!(codec_in("xcodec=flac codec=").as_deref(), Some(""));
    assert_eq!(codec_in("rate=48000"), None);
    assert_eq!(codec_in(""), None);
    let mut base = BaseOptions::new();
    base.audio = vec!["rate=1".to_string(), "codec=opus codec=aac".to_string(), "codec=mp3".to_string()];
    assert_eq!(base.audio_codec().as_deref(), Some("opus"));
    let codecs = register_codecs();
    assert!(matches!(codecs.check_audio_codec(&base), Err(Error::UnknownCodec)));
    base.audio = vec!["codec=pcm_s16le".to_string()];
    assert!(codecs.check_audio_codec(&base).is_ok());
    base.audio = vec!["gain=3".to_string()];
    assert!(codecs.check_audio_codec(&base).is_ok());
}
