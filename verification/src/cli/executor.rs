use super::args::ConvertOptions;
use crate::error::Error;
use crate::text::str_eq;
use vstd::prelude::*;
use vstd::string::StrSliceExecFns;

verus! {

broadcast use vstd::std_specs::control_flow::group_control_flow_axioms;

/// The pipeline a conversion runs, by the output's container.
#[derive(Debug, Clone, Copy, PartialEq, Eq)]
pub enum PipelineKind {
    Mp3,
    Wav,
    Aac,
    Opus,
    Flac,
    Alac,
    M4a,
    Ogg,
    Mp4,
    Avi,
    Mov,
    Webm,
    Mkv,
    Ogv,
    Flv,
    Mxf,
    Ts,
    Jpeg,
    Png,
    Bmp,
    Webp,
    Tiff,
}

/// The position of the last `.` in `p`, if any.
pub open spec fn last_dot(p: Seq<char>) -> Option<int>
    decreases p.len(),
{
    if p.len() == 0 {
        None
    } else if p.last() == '.' {
        Some(p.len() - 1)
    } else {
        last_dot(p.drop_last())
    }
}

/// The extension of a path: what follows its last `.`, where that is not empty.
pub open spec fn extension(p: Seq<char>) -> Option<Seq<char>> {
    match last_dot(p) {
        Some(i) => if i + 1 < p.len() {
            Some(p.skip(i + 1))
        } else {
            None
        },
        None => None,
    }
}

/// The extension of a path; `MissingExtension` where it has none.
pub fn get_extension(path: &str) -> (r: Result<String, Error>)
    ensures
        match extension(path@) {
            Some(e) => r matches Ok(s) && s@ == e,
            None => r == Err::<String, Error>(Error::MissingExtension),
        },
{
    let n = path.unicode_len();
    let mut i = n;
    assert(path@.take(n as int) =~= path@);
    while i > 0
        invariant
            i <= n == path@.len(),
            last_dot(path@) == last_dot(path@.take(i as int)),
        decreases i,
    {
        if path.get_char(i - 1) == '.' {
            proof {
                assert(path@.take(i as int).last() == '.');
            }
            if i < n {
                let ext = path.substring_char(i, n);
                assert(ext@ =~= path@.skip(i as int));
                return Ok(String::from_str(ext));
            } else {
                return Err(Error::MissingExtension);
            }
        }
        assert(path@.take(i as int).drop_last() =~= path@.take(i - 1));
        i = i - 1;
    }
    assert(path@.take(0) =~= Seq::<char>::empty());
    Err(Error::MissingExtension)
}

/// The pipeline an output extension names.
pub open spec fn pipeline_of(e: Seq<char>) -> Option<PipelineKind> {
    if e == "mp3"@ {
        Some(PipelineKind::Mp3)
    } else if e == "wav"@ {
        Some(PipelineKind::Wav)
    } else if e == "aac"@ {
        Some(PipelineKind::Aac)
    } else if e == "opus"@ {
        Some(PipelineKind::Opus)
    } else if e == "flac"@ {
        Some(PipelineKind::Flac)
    } else if e == "alac"@ {
        Some(PipelineKind::Alac)
    } else if e == "m4a"@ {
        Some(PipelineKind::M4a)
    } else if e == "ogg"@ {
        Some(PipelineKind::Ogg)
    } else if e == "mp4"@ {
        Some(PipelineKind::Mp4)
    } else if e == "avi"@ {
        Some(PipelineKind::Avi)
    } else if e == "mov"@ {
        Some(PipelineKind::Mov)
    } else if e == "webm"@ {
        Some(PipelineKind::Webm)
    } else if e == "mkv"@ {
        Some(PipelineKind::Mkv)
    } else if e == "ogv"@ {
        Some(PipelineKind::Ogv)
    } else if e == "flv"@ {
        Some(PipelineKind::Flv)
    } else if e == "mxf"@ {
        Some(PipelineKind::Mxf)
    } else if e == "ts"@ {
        Some(PipelineKind::Ts)
    } else if e == "jpeg"@ || e == "jpg"@ {
        Some(PipelineKind::Jpeg)
    } else if e == "png"@ {
        Some(PipelineKind::Png)
    } else if e == "bmp"@ {
        Some(PipelineKind::Bmp)
    } else if e == "webp"@ {
        Some(PipelineKind::Webp)
    } else if e == "tiff"@ {
        Some(PipelineKind::Tiff)
    } else {
        None
    }
}

/// Each pipeline is chosen by the extension of its own name and by no other (`jpeg` and
/// `jpg` both choose the JPEG one), so no two extensions share a pipeline unless they name
/// the same format.
pub proof fn law_pipeline_named_by_extension(e: Seq<char>)
    ensures
        (pipeline_of(e) == Some(PipelineKind::Mp3)) == (e == "mp3"@),
        (pipeline_of(e) == Some(PipelineKind::Wav)) == (e == "wav"@),
        (pipeline_of(e) == Some(PipelineKind::Aac)) == (e == "aac"@),
        (pipeline_of(e) == Some(PipelineKind::Opus)) == (e == "opus"@),
        (pipeline_of(e) == Some(PipelineKind::Flac)) == (e == "flac"@),
        (pipeline_of(e) == Some(PipelineKind::Alac)) == (e == "alac"@),
        (pipeline_of(e) == Some(PipelineKind::M4a)) == (e == "m4a"@),
        (pipeline_of(e) == Some(PipelineKind::Ogg)) == (e == "ogg"@),
        (pipeline_of(e) == Some(PipelineKind::Mp4)) == (e == "mp4"@),
        (pipeline_of(e) == Some(PipelineKind::Avi)) == (e == "avi"@),
        (pipeline_of(e) == Some(PipelineKind::Mov)) == (e == "mov"@),
        (pipeline_of(e) == Some(PipelineKind::Webm)) == (e == "webm"@),
        (pipeline_of(e) == Some(PipelineKind::Mkv)) == (e == "mkv"@),
        (pipeline_of(e) == Some(PipelineKind::Ogv)) == (e == "ogv"@),
        (pipeline_of(e) == Some(PipelineKind::Flv)) == (e == "flv"@),
        (pipeline_of(e) == Some(PipelineKind::Mxf)) == (e == "mxf"@),
        (pipeline_of(e) == Some(PipelineKind::Ts)) == (e == "ts"@),
        (pipeline_of(e) == Some(PipelineKind::Png)) == (e == "png"@),
        (pipeline_of(e) == Some(PipelineKind::Bmp)) == (e == "bmp"@),
        (pipeline_of(e) == Some(PipelineKind::Webp)) == (e == "webp"@),
        (pipeline_of(e) == Some(PipelineKind::Tiff)) == (e == "tiff"@),
        (pipeline_of(e) == Some(PipelineKind::Jpeg)) == (e == "jpeg"@ || e == "jpg"@),
{
    reveal_strlit("mp3");
    reveal_strlit("wav");
    reveal_strlit("aac");
    reveal_strlit("opus");
    reveal_strlit("flac");
    reveal_strlit("alac");
    reveal_strlit("m4a");
    reveal_strlit("ogg");
    reveal_strlit("mp4");
    reveal_strlit("avi");
    reveal_strlit("mov");
    reveal_strlit("webm");
    reveal_strlit("mkv");
    reveal_strlit("ogv");
    reveal_strlit("flv");
    reveal_strlit("mxf");
    reveal_strlit("ts");
    reveal_strlit("png");
    reveal_strlit("bmp");
    reveal_strlit("webp");
    reveal_strlit("tiff");
    reveal_strlit("jpeg");
    reveal_strlit("jpg");
    assert("mp3"@.len() == 3 && "mp3"@[0] == 'm' && "mp3"@[1] == 'p' && "mp3"@[2] == '3');
    assert("wav"@.len() == 3 && "wav"@[0] == 'w' && "wav"@[1] == 'a' && "wav"@[2] == 'v');
    assert("aac"@.len() == 3 && "aac"@[0] == 'a' && "aac"@[1] == 'a' && "aac"@[2] == 'c');
    assert("opus"@.len() == 4 && "opus"@[0] == 'o' && "opus"@[1] == 'p' && "opus"@[2] == 'u' && "opus"@[3] == 's');
    assert("flac"@.len() == 4 && "flac"@[0] == 'f' && "flac"@[1] == 'l' && "flac"@[2] == 'a' && "flac"@[3] == 'c');
    assert("alac"@.len() == 4 && "alac"@[0] == 'a' && "alac"@[1] == 'l' && "alac"@[2] == 'a' && "alac"@[3] == 'c');
    assert("m4a"@.len() == 3 && "m4a"@[0] == 'm' && "m4a"@[1] == '4' && "m4a"@[2] == 'a');
    assert("ogg"@.len() == 3 && "ogg"@[0] == 'o' && "ogg"@[1] == 'g' && "ogg"@[2] == 'g');
    assert("mp4"@.len() == 3 && "mp4"@[0] == 'm' && "mp4"@[1] == 'p' && "mp4"@[2] == '4');
    assert("avi"@.len() == 3 && "avi"@[0] == 'a' && "avi"@[1] == 'v' && "avi"@[2] == 'i');
    assert("mov"@.len() == 3 && "mov"@[0] == 'm' && "mov"@[1] == 'o' && "mov"@[2] == 'v');
    assert("webm"@.len() == 4 && "webm"@[0] == 'w' && "webm"@[1] == 'e' && "webm"@[2] == 'b' && "webm"@[3] == 'm');
    assert("mkv"@.len() == 3 && "mkv"@[0] == 'm' && "mkv"@[1] == 'k' && "mkv"@[2] == 'v');
    assert("ogv"@.len() == 3 && "ogv"@[0] == 'o' && "ogv"@[1] == 'g' && "ogv"@[2] == 'v');
    assert("flv"@.len() == 3 && "flv"@[0] == 'f' && "flv"@[1] == 'l' && "flv"@[2] == 'v');
    assert("mxf"@.len() == 3 && "mxf"@[0] == 'm' && "mxf"@[1] == 'x' && "mxf"@[2] == 'f');
    assert("ts"@.len() == 2 && "ts"@[0] == 't' && "ts"@[1] == 's');
    assert("jpeg"@.len() == 4 && "jpeg"@[0] == 'j' && "jpeg"@[1] == 'p' && "jpeg"@[2] == 'e' && "jpeg"@[3] == 'g');
    assert("jpg"@.len() == 3 && "jpg"@[0] == 'j' && "jpg"@[1] == 'p' && "jpg"@[2] == 'g');
    assert("png"@.len() == 3 && "png"@[0] == 'p' && "png"@[1] == 'n' && "png"@[2] == 'g');
    assert("bmp"@.len() == 3 && "bmp"@[0] == 'b' && "bmp"@[1] == 'm' && "bmp"@[2] == 'p');
    assert("webp"@.len() == 4 && "webp"@[0] == 'w' && "webp"@[1] == 'e' && "webp"@[2] == 'b' && "webp"@[3] == 'p');
    assert("tiff"@.len() == 4 && "tiff"@[0] == 't' && "tiff"@[1] == 'i' && "tiff"@[2] == 'f' && "tiff"@[3] == 'f');
}

fn pipeline_for(e: &str) -> (r: Option<PipelineKind>)
    ensures
        r == pipeline_of(e@),
{
    if str_eq(e, "mp3") {
        Some(PipelineKind::Mp3)
    } else if str_eq(e, "wav") {
        Some(PipelineKind::Wav)
    } else if str_eq(e, "aac") {
        Some(PipelineKind::Aac)
    } else if str_eq(e, "opus") {
        Some(PipelineKind::Opus)
    } else if str_eq(e, "flac") {
        Some(PipelineKind::Flac)
    } else if str_eq(e, "alac") {
        Some(PipelineKind::Alac)
    } else if str_eq(e, "m4a") {
        Some(PipelineKind::M4a)
    } else if str_eq(e, "ogg") {
        Some(PipelineKind::Ogg)
    } else if str_eq(e, "mp4") {
        Some(PipelineKind::Mp4)
    } else if str_eq(e, "avi") {
        Some(PipelineKind::Avi)
    } else if str_eq(e, "mov") {
        Some(PipelineKind::Mov)
    } else if str_eq(e, "webm") {
        Some(PipelineKind::Webm)
    } else if str_eq(e, "mkv") {
        Some(PipelineKind::Mkv)
    } else if str_eq(e, "ogv") {
        Some(PipelineKind::Ogv)
    } else if str_eq(e, "flv") {
        Some(PipelineKind::Flv)
    } else if str_eq(e, "mxf") {
        Some(PipelineKind::Mxf)
    } else if str_eq(e, "ts") {
        Some(PipelineKind::Ts)
    } else if str_eq(e, "jpeg") || str_eq(e, "jpg") {
        Some(PipelineKind::Jpeg)
    } else if str_eq(e, "png") {
        Some(PipelineKind::Png)
    } else if str_eq(e, "bmp") {
        Some(PipelineKind::Bmp)
    } else if str_eq(e, "webp") {
        Some(PipelineKind::Webp)
    } else if str_eq(e, "tiff") {
        Some(PipelineKind::Tiff)
    } else {
        None
    }
}

/// Decides what a conversion runs: both paths need an extension (`MissingExtension`), and the
/// output's extension names the pipeline (`UnsupportedContainer` where none).
pub fn execute(cli: &ConvertOptions) -> (r: Result<PipelineKind, Error>)
    ensures
        extension(cli.input@) is None ==> r == Err::<PipelineKind, Error>(Error::MissingExtension),
        extension(cli.input@) is Some && extension(cli.output@) is None ==> r == Err::<PipelineKind, Error>(
            Error::MissingExtension,
        ),
        (extension(cli.input@) is Some && extension(cli.output@) is Some) ==> match pipeline_of(
            extension(cli.output@)->0,
        ) {
            Some(k) => r == Ok::<PipelineKind, Error>(k),
            None => r == Err::<PipelineKind, Error>(Error::UnsupportedContainer),
        },
{
    let _input_ext = get_extension(cli.input.as_str())?;
    let output_ext = get_extension(cli.output.as_str())?;
    match pipeline_for(output_ext.as_str()) {
        Some(k) => Ok(k),
        None => Err(Error::UnsupportedContainer),
    }
}

} // verus!
