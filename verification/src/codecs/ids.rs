//! The codecs this program knows by name: their other names and the file extensions they are
//! stored under, in registries by name and by primary extension.
use rustc_hash::FxHashMap;
use vstd::prelude::*;

verus! {

/// A codec: its name, its other names, and the file extensions it is stored under, the first
/// of them its primary one.
#[derive(Debug, Clone, Copy)]
pub struct CodecId {
    pub name: &'static str,
    pub aliases: &'static [&'static str],
    pub exts: &'static [&'static str],
}

/// A codec as texts: name, other names, extensions.
pub type CodecModel = (Seq<char>, Seq<Seq<char>>, Seq<Seq<char>>);

/// The texts of string slices.
pub open spec fn texts_of(s: Seq<&str>) -> Seq<Seq<char>> {
    s.map_values(|t: &str| t@)
}

impl CodecId {
    /// The codec as texts.
    pub open spec fn model(&self) -> CodecModel {
        (self.name@, texts_of(self.aliases@), texts_of(self.exts@))
    }

    /// The extension the codec is mainly stored under: its first, where it has any.
    pub fn primary_extension(&self) -> (r: Option<&'static str>)
        ensures
            self.exts@.len() > 0 ==> r == Some(self.exts@[0]),
            self.exts@.len() == 0 ==> r is None,
    {
        if self.exts.len() > 0 {
            Some(self.exts[0])
        } else {
            None
        }
    }
}

/// The codecs this program knows, in the order they are registered.
pub open spec fn codec_table() -> Seq<CodecModel> {
    seq![
        ("aac"@, Seq::empty(), seq!["aac"@, "m4a"@]),
        ("mp3"@, Seq::empty(), seq!["mp3"@]),
        ("mp2"@, Seq::empty(), seq!["mp2"@]),
        ("opus"@, Seq::empty(), seq!["opus"@, "ogg"@]),
        ("vorbis"@, Seq::empty(), seq!["ogg"@]),
        ("amr_nb"@, Seq::empty(), seq!["amr"@]),
        ("amr_wb"@, Seq::empty(), seq!["amr"@]),
        ("ac3"@, Seq::empty(), seq!["ac3"@]),
        ("eac3"@, Seq::empty(), seq!["eac3"@]),
        ("wma"@, Seq::empty(), seq!["wma"@]),
        ("atrac3"@, Seq::empty(), seq!["aa3"@]),
        ("flac"@, Seq::empty(), seq!["flac"@]),
        ("alac"@, Seq::empty(), seq!["m4a"@]),
        ("wavpack"@, Seq::empty(), seq!["wv"@]),
        ("tta"@, Seq::empty(), seq!["tta"@]),
        ("ape"@, Seq::empty(), Seq::empty()),
        ("dsd_lsbf"@, Seq::empty(), seq!["dsf"@]),
        ("dsd_msbf"@, Seq::empty(), seq!["dsf"@]),
        ("dsd_lsbf_planar"@, Seq::empty(), seq!["dff"@]),
        ("dsd_msbf_planar"@, Seq::empty(), seq!["dff"@]),
        ("pcm_f32le"@, Seq::empty(), seq!["wav"@]),
        ("pcm_s24le"@, Seq::empty(), seq!["wav"@]),
        ("pcm_s16le"@, seq!["pcm"@], seq!["wav"@]),
        ("h265"@, seq!["hevc"@], seq!["mp4"@, "mkv"@, "mov"@]),
        ("h264"@, Seq::empty(), seq!["mp4"@, "mkv"@, "mov"@]),
        ("vp8"@, Seq::empty(), seq!["webm"@, "mkv"@]),
        ("vp9"@, Seq::empty(), seq!["webm"@, "mkv"@]),
        ("av1"@, Seq::empty(), seq!["mkv"@, "mp4"@, "webm"@]),
        ("mpeg2"@, Seq::empty(), seq!["mpg"@, "mpeg"@, "ts"@]),
        ("mpeg4"@, Seq::empty(), seq!["mp4"@, "avi"@]),
        ("theora"@, Seq::empty(), seq!["ogv"@, "mkv"@]),
        ("vp6"@, Seq::empty(), seq!["flv"@]),
        ("wmv1"@, Seq::empty(), seq!["wmv"@]),
        ("wmv2"@, Seq::empty(), seq!["wmv"@]),
        ("wmv3"@, Seq::empty(), seq!["wmv"@]),
        ("mjpeg"@, Seq::empty(), seq!["avi"@, "mjpg"@]),
        ("jpeg2000"@, Seq::empty(), seq!["jp2"@, "mxf"@]),
        ("prores"@, Seq::empty(), seq!["mov"@, "mxf"@]),
        ("dnxhd"@, Seq::empty(), seq!["mxf"@]),
        ("dnxhr"@, Seq::empty(), seq!["mxf"@]),
        ("vp10"@, Seq::empty(), seq!["webm"@, "mkv"@]),
        ("yuv420p"@, Seq::empty(), seq!["yuv"@]),
    ]
}

/// The known codecs, in the order `codec_table` lists them.
fn known_codecs() -> (v: Vec<CodecId>)
    ensures
        v@.len() == codec_table().len(),
        forall|i: int| 0 <= i < v@.len() ==> #[trigger] v@[i].model() == codec_table()[i],
{
    let mut v: Vec<CodecId> = Vec::new();
    v.push(CodecId { name: "aac", aliases: &[], exts: &["aac", "m4a"] });
    v.push(CodecId { name: "mp3", aliases: &[], exts: &["mp3"] });
    v.push(CodecId { name: "mp2", aliases: &[], exts: &["mp2"] });
    v.push(CodecId { name: "opus", aliases: &[], exts: &["opus", "ogg"] });
    v.push(CodecId { name: "vorbis", aliases: &[], exts: &["ogg"] });
    v.push(CodecId { name: "amr_nb", aliases: &[], exts: &["amr"] });
    v.push(CodecId { name: "amr_wb", aliases: &[], exts: &["amr"] });
    v.push(CodecId { name: "ac3", aliases: &[], exts: &["ac3"] });
    v.push(CodecId { name: "eac3", aliases: &[], exts: &["eac3"] });
    v.push(CodecId { name: "wma", aliases: &[], exts: &["wma"] });
    v.push(CodecId { name: "atrac3", aliases: &[], exts: &["aa3"] });
    v.push(CodecId { name: "flac", aliases: &[], exts: &["flac"] });
    v.push(CodecId { name: "alac", aliases: &[], exts: &["m4a"] });
    v.push(CodecId { name: "wavpack", aliases: &[], exts: &["wv"] });
    v.push(CodecId { name: "tta", aliases: &[], exts: &["tta"] });
    v.push(CodecId { name: "ape", aliases: &[], exts: &[] });
    v.push(CodecId { name: "dsd_lsbf", aliases: &[], exts: &["dsf"] });
    v.push(CodecId { name: "dsd_msbf", aliases: &[], exts: &["dsf"] });
    v.push(CodecId { name: "dsd_lsbf_planar", aliases: &[], exts: &["dff"] });
    v.push(CodecId { name: "dsd_msbf_planar", aliases: &[], exts: &["dff"] });
    v.push(CodecId { name: "pcm_f32le", aliases: &[], exts: &["wav"] });
    v.push(CodecId { name: "pcm_s24le", aliases: &[], exts: &["wav"] });
    v.push(CodecId { name: "pcm_s16le", aliases: &["pcm"], exts: &["wav"] });
    v.push(CodecId { name: "h265", aliases: &["hevc"], exts: &["mp4", "mkv", "mov"] });
    v.push(CodecId { name: "h264", aliases: &[], exts: &["mp4", "mkv", "mov"] });
    v.push(CodecId { name: "vp8", aliases: &[], exts: &["webm", "mkv"] });
    v.push(CodecId { name: "vp9", aliases: &[], exts: &["webm", "mkv"] });
    v.push(CodecId { name: "av1", aliases: &[], exts: &["mkv", "mp4", "webm"] });
    v.push(CodecId { name: "mpeg2", aliases: &[], exts: &["mpg", "mpeg", "ts"] });
    v.push(CodecId { name: "mpeg4", aliases: &[], exts: &["mp4", "avi"] });
    v.push(CodecId { name: "theora", aliases: &[], exts: &["ogv", "mkv"] });
    v.push(CodecId { name: "vp6", aliases: &[], exts: &["flv"] });
    v.push(CodecId { name: "wmv1", aliases: &[], exts: &["wmv"] });
    v.push(CodecId { name: "wmv2", aliases: &[], exts: &["wmv"] });
    v.push(CodecId { name: "wmv3", aliases: &[], exts: &["wmv"] });
    v.push(CodecId { name: "mjpeg", aliases: &[], exts: &["avi", "mjpg"] });
    v.push(CodecId { name: "jpeg2000", aliases: &[], exts: &["jp2", "mxf"] });
    v.push(CodecId { name: "prores", aliases: &[], exts: &["mov", "mxf"] });
    v.push(CodecId { name: "dnxhd", aliases: &[], exts: &["mxf"] });
    v.push(CodecId { name: "dnxhr", aliases: &[], exts: &["mxf"] });
    v.push(CodecId { name: "vp10", aliases: &[], exts: &["webm", "mkv"] });
    v.push(CodecId { name: "yuv420p", aliases: &[], exts: &["yuv"] });
    proof {
        assert forall|i: int| 0 <= i < v@.len() implies #[trigger] v@[i].model() == codec_table()[i] by {
            assert(texts_of(v@[i].aliases@) =~= codec_table()[i].1);
            assert(texts_of(v@[i].exts@) =~= codec_table()[i].2);
        }
    }
    v
}

/// Codecs by name or by extension, in a rustc-hash map.
#[verifier::external_body]
pub struct CodecIdMapper {
    map: FxHashMap<&'static str, CodecId>,
}

/// Codecs by primary extension, in a rustc-hash map.
pub type CodecExtMapper = CodecIdMapper;

/// What a codec map holds: each key with the codec it names, as texts.
pub uninterp spec fn codec_ids(m: CodecIdMapper) -> Map<Seq<char>, CodecModel>;

/// The map of no codecs.
pub open spec fn no_codec_ids() -> Map<Seq<char>, CodecModel> {
    Map::empty()
}

impl CodecIdMapper {
    /// `FxHashMap::default`: a map that holds nothing.
    #[verifier::external_body]
    fn empty() -> (m: Self)
        ensures
            codec_ids(m) == no_codec_ids(),
    {
        CodecIdMapper { map: FxHashMap::default() }
    }

    /// `HashMap::insert`: the key names the codec afterwards, in place of any earlier one;
    /// every other key keeps its codec.
    #[verifier::external_body]
    fn insert(&mut self, key: &'static str, codec: CodecId)
        ensures
            codec_ids(*final(self)) == codec_ids(*old(self)).insert(key@, codec.model()),
    {
        self.map.insert(key, codec);
    }

    /// `HashMap::get`, with the codec copied out: the codec the key names, where it names one.
    #[verifier::external_body]
    fn entry(&self, key: &str) -> (r: Option<CodecId>)
        ensures
            codec_ids(*self).dom().contains(key@) ==> r is Some && r->0.model() == codec_ids(*self)[key@],
            !codec_ids(*self).dom().contains(key@) ==> r is None,
    {
        self.map.get(key).copied()
    }

    /// The codec a name, other name or extension names, where one is registered under it.
    pub fn find(&self, key: &str) -> (r: Option<CodecId>)
        ensures
            codec_ids(*self).dom().contains(key@) ==> r is Some && r->0.model() == codec_ids(*self)[key@],
            !codec_ids(*self).dom().contains(key@) ==> r is None,
    {
        self.entry(key)
    }
}

/// `m` with each of `names` naming `c`, in turn.
pub open spec fn with_names(m: Map<Seq<char>, CodecModel>, names: Seq<Seq<char>>, c: CodecModel) -> Map<
    Seq<char>,
    CodecModel,
>
    decreases names.len(),
{
    if names.len() == 0 {
        m
    } else {
        with_names(m.insert(names[0], c), names.drop_first(), c)
    }
}

/// `m` with each codec of `cs` registered in turn under its name and its other names; a later
/// codec takes a name over from an earlier one.
pub open spec fn ids_after(m: Map<Seq<char>, CodecModel>, cs: Seq<CodecModel>) -> Map<Seq<char>, CodecModel>
    decreases cs.len(),
{
    if cs.len() == 0 {
        m
    } else {
        ids_after(with_names(m.insert(cs[0].0, cs[0]), cs[0].1, cs[0]), cs.drop_first())
    }
}

/// `m` with each codec of `cs` that has an extension registered in turn under its primary
/// one; a later codec takes an extension over from an earlier one.
pub open spec fn exts_after(m: Map<Seq<char>, CodecModel>, cs: Seq<CodecModel>) -> Map<Seq<char>, CodecModel>
    decreases cs.len(),
{
    if cs.len() == 0 {
        m
    } else {
        exts_after(if cs[0].2.len() > 0 { m.insert(cs[0].2[0], cs[0]) } else { m }, cs.drop_first())
    }
}

/// Registers `codecs` in turn: each under its name and its other names, and under its primary
/// extension where it has one.
pub fn register_ids(codecs: &[CodecId]) -> (r: (CodecIdMapper, CodecExtMapper))
    ensures
        codec_ids(r.0) == ids_after(no_codec_ids(), codecs@.map_values(|c: CodecId| c.model())),
        codec_ids(r.1) == exts_after(no_codec_ids(), codecs@.map_values(|c: CodecId| c.model())),
{
    let ghost cs = codecs@.map_values(|c: CodecId| c.model());
    let mut ids = CodecIdMapper::empty();
    let mut exts = CodecIdMapper::empty();
    let mut i: usize = 0;
    assert(cs.skip(0) =~= cs);
    while i < codecs.len()
        invariant
            i <= codecs@.len(),
            cs == codecs@.map_values(|c: CodecId| c.model()),
            ids_after(codec_ids(ids), cs.skip(i as int)) == ids_after(no_codec_ids(), cs),
            exts_after(codec_ids(exts), cs.skip(i as int)) == exts_after(no_codec_ids(), cs),
        decreases codecs@.len() - i,
    {
        let c = codecs[i];
        let ghost m = c.model();
        assert(cs[i as int] == m);
        assert(cs.skip(i as int).drop_first() =~= cs.skip(i + 1));
        let ghost target = ids_after(codec_ids(ids), cs.skip(i as int));
        ids.insert(c.name, c);
        match c.primary_extension() {
            Some(e) => {
                exts.insert(e, c);
            },
            None => {},
        }
        let mut j: usize = 0;
        let ghost names = texts_of(c.aliases@);
        assert(names.skip(0) =~= names);
        while j < c.aliases.len()
            invariant
                j <= c.aliases@.len(),
                names == texts_of(c.aliases@),
                m == c.model(),
                ids_after(with_names(codec_ids(ids), names.skip(j as int), m), cs.skip(i + 1)) == target,
            decreases c.aliases@.len() - j,
        {
            assert(names.skip(j as int)[0] == c.aliases@[j as int]@);
            assert(names.skip(j as int).drop_first() =~= names.skip(j + 1));
            ids.insert(c.aliases[j], c);
            j = j + 1;
        }
        assert(names.skip(j as int) =~= Seq::<Seq<char>>::empty());
        i = i + 1;
    }
    assert(cs.skip(i as int) =~= Seq::<CodecModel>::empty());
    (ids, exts)
}

/// Registers the codecs this program knows, in the order `codec_table` lists them: by name and
/// other names, and by primary extension.
pub fn register_codecs_ids() -> (r: (CodecIdMapper, CodecExtMapper))
    ensures
        codec_ids(r.0) == ids_after(no_codec_ids(), codec_table()),
        codec_ids(r.1) == exts_after(no_codec_ids(), codec_table()),
{
    let codecs = known_codecs();
    let r = register_ids(codecs.as_slice());
    assert(codecs@.map_values(|c: CodecId| c.model()) =~= codec_table());
    r
}

} // verus!
