//! The container registry: which demuxer and muxer each container name opens, and which
//! container each file extension names.
use super::wav::demuxer::{wav_opened, WavDemuxer};
use super::wav::muxer::{header_writable, wav_muxer_opened, WavMuxer};
use super::yuv::{YuvDemuxer, YuvFormat, YuvMuxer};
use crate::error::Error;
use crate::io::{ByteReader, ByteWriter};
use crate::media::{Format, StreamKind, Time};
use rustc_hash::FxHashMap;
use vstd::prelude::*;

verus! {

/// A demuxer that a container entry opens.
pub enum ContainerDemuxer {
    Wav(WavDemuxer),
    Yuv(YuvDemuxer),
}

/// A muxer that a container entry opens.
pub enum ContainerMuxer {
    Wav(WavMuxer),
    Yuv(YuvMuxer),
}

/// How a container opens a demuxer on the bytes of a file.
#[derive(Debug, Clone, Copy, PartialEq, Eq, Structural)]
pub enum DemuxerFactory {
    /// The WAVE demuxer.
    Wav,
    /// The raw YUV demuxer, at the default picture layout.
    Yuv,
}

/// How a container opens a muxer on a writer, for an output format.
#[derive(Debug, Clone, Copy, PartialEq, Eq, Structural)]
pub enum MuxerFactory {
    /// The WAVE muxer.
    Wav,
    /// The raw YUV muxer.
    Yuv,
}

/// The picture layout a raw YUV file is read at: 1920x1080, 8 bits, 30 pictures per second.
pub open spec fn default_yuv() -> YuvFormat {
    YuvFormat { width: 1920, height: 1080, depth: 8, fps_millis: 30000 }
}

/// A raw YUV demuxer just opened on `src` at the default layout: at the first picture, with
/// one video stream, `yuv420p`, at a time base of 1000/30000.
pub open spec fn yuv_opened(d: YuvDemuxer, src: Seq<u8>) -> bool {
    &&& d.wf()
    &&& d.source() == src
    &&& d.spec_format() == default_yuv()
    &&& d.spec_frame_count() == 0
    &&& d.spec_time() == Time { num: 1000, den: 30000 }
    &&& d.spec_streams().items@.len() == 1
    &&& d.spec_streams().items@[0].id == 0
    &&& d.spec_streams().items@[0].kind == StreamKind::Video
    &&& d.spec_streams().items@[0].codec@ == "yuv420p"@
    &&& d.spec_streams().items@[0].time == Time { num: 1000, den: 30000 }
}

impl DemuxerFactory {
    /// Opens this factory's demuxer on `file`. The WAVE demuxer fails where the header does not
    /// parse or does not validate, with the same error as `WavDemuxer::new`; the raw YUV
    /// demuxer, at 1920x1080 8-bit pictures and 30 per second, always opens.
    pub fn open(&self, file: ByteReader) -> (r: Result<ContainerDemuxer, Error>)
        ensures
            *self == DemuxerFactory::Wav ==> match r {
                Ok(ContainerDemuxer::Wav(d)) => wav_opened(file.rest(), Ok(d)),
                Ok(ContainerDemuxer::Yuv(_)) => false,
                Err(e) => wav_opened(file.rest(), Err(e)),
            },
            *self == DemuxerFactory::Yuv ==> (r matches Ok(ContainerDemuxer::Yuv(d)) && yuv_opened(d, file.rest())),
    {
        match self {
            DemuxerFactory::Wav => {
                let demuxer = WavDemuxer::new(file)?;
                Ok(ContainerDemuxer::Wav(demuxer))
            },
            DemuxerFactory::Yuv => {
                let format = YuvFormat::default();
                assert(format.spec_frame_size() == 3110400) by {
                    assert(1920 * 1080 == 2073600int) by (nonlinear_arith);
                    assert(960 * 540 == 518400int) by (nonlinear_arith);
                }
                let demuxer = YuvDemuxer::new(file, format)?;
                Ok(ContainerDemuxer::Yuv(demuxer))
            },
        }
    }
}

impl MuxerFactory {
    /// Opens this factory's muxer on `file` for output in `format`; `WrongFormat` where the
    /// muxer does not take that kind of format. The WAVE muxer writes its header at the
    /// writer's position, as `WavMuxer::new` does.
    pub fn open(&self, file: ByteWriter, format: &Format) -> (r: Result<ContainerMuxer, Error>)
        requires
            *self == MuxerFactory::Wav && format is Wav ==> header_writable(format->Wav_0),
        ensures
            *self == MuxerFactory::Wav ==> match *format {
                Format::Wav(f) => match r {
                    Ok(ContainerMuxer::Wav(m)) => wav_muxer_opened(file, f, Ok(m)),
                    Ok(ContainerMuxer::Yuv(_)) => false,
                    Err(e) => wav_muxer_opened(file, f, Err(e)),
                },
                _ => r == Err::<ContainerMuxer, Error>(Error::WrongFormat),
            },
            *self == MuxerFactory::Yuv ==> match *format {
                Format::Yuv(f) => r matches Ok(ContainerMuxer::Yuv(m)) && m.spec_writer() == file
                    && m.spec_format() == f,
                _ => r == Err::<ContainerMuxer, Error>(Error::WrongFormat),
            },
    {
        match self {
            MuxerFactory::Wav => {
                let muxer = WavMuxer::from_format(file, format)?;
                Ok(ContainerMuxer::Wav(muxer))
            },
            MuxerFactory::Yuv => {
                let muxer = YuvMuxer::from_format(file, format)?;
                Ok(ContainerMuxer::Yuv(muxer))
            },
        }
    }
}

/// What a container name registers: its demuxer and its muxer, where it has them.
#[derive(Debug, Clone, Copy, PartialEq, Eq, Structural)]
pub struct ContainerEntry {
    pub demuxer: Option<DemuxerFactory>,
    pub muxer: Option<MuxerFactory>,
}

/// The entry of the WAVE container: both sides.
pub open spec fn wav_entry() -> ContainerEntry {
    ContainerEntry { demuxer: Some(DemuxerFactory::Wav), muxer: Some(MuxerFactory::Wav) }
}

/// The entry of the raw YUV container: both sides.
pub open spec fn yuv_entry() -> ContainerEntry {
    ContainerEntry { demuxer: Some(DemuxerFactory::Yuv), muxer: Some(MuxerFactory::Yuv) }
}

/// The map of no containers.
pub open spec fn no_containers() -> Map<Seq<char>, ContainerEntry> {
    Map::empty()
}

/// The map of no extensions.
pub open spec fn no_extensions() -> Map<Seq<char>, Seq<char>> {
    Map::empty()
}

/// Container entries by container name, in a rustc-hash map.
#[verifier::external_body]
pub struct ContainerMapper {
    map: FxHashMap<&'static str, ContainerEntry>,
}

/// Container names by file extension, in a rustc-hash map.
#[verifier::external_body]
pub struct ContainerExtMapper {
    map: FxHashMap<&'static str, &'static str>,
}

/// What a container map holds: each registered name with its entry.
pub uninterp spec fn container_factories(m: ContainerMapper) -> Map<Seq<char>, ContainerEntry>;

/// What an extension map holds: each registered extension with the container it names.
pub uninterp spec fn container_extensions(m: ContainerExtMapper) -> Map<Seq<char>, Seq<char>>;

impl ContainerMapper {
    /// `FxHashMap::default`: a map that holds nothing.
    #[verifier::external_body]
    pub(crate) fn empty() -> (m: Self)
        ensures
            container_factories(m) == no_containers(),
    {
        ContainerMapper { map: FxHashMap::default() }
    }

    /// `HashMap::insert`: the name maps to the entry afterwards, in place of any earlier one;
    /// every other name keeps its entry.
    #[verifier::external_body]
    pub(crate) fn insert(&mut self, name: &'static str, entry: ContainerEntry)
        ensures
            container_factories(*final(self)) == container_factories(*old(self)).insert(name@, entry),
    {
        self.map.insert(name, entry);
    }

    /// `HashMap::get`, with the entry copied out: the entry of the name, where it has one.
    #[verifier::external_body]
    fn entry(&self, name: &str) -> (r: Option<ContainerEntry>)
        ensures
            container_factories(*self).dom().contains(name@) ==> r == Some(container_factories(*self)[name@]),
            !container_factories(*self).dom().contains(name@) ==> r is None,
    {
        self.map.get(name).copied()
    }

    /// Opens the demuxer of the named container on `file`: `UnknownContainer` where no
    /// container has the name, `NoDemuxer` where it has no demuxer, else what its factory opens.
    pub fn demuxer_for(&self, name: &str, file: ByteReader) -> (r: Result<ContainerDemuxer, Error>)
        ensures
            !container_factories(*self).dom().contains(name@) ==> r == Err::<ContainerDemuxer, Error>(
                Error::UnknownContainer,
            ),
            container_factories(*self).dom().contains(name@) && container_factories(*self)[name@].demuxer is None
                ==> r == Err::<ContainerDemuxer, Error>(Error::NoDemuxer),
            container_factories(*self).dom().contains(name@) && container_factories(*self)[name@].demuxer
                == Some(DemuxerFactory::Yuv) ==> (r matches Ok(ContainerDemuxer::Yuv(d)) && yuv_opened(d, file.rest())),
            container_factories(*self).dom().contains(name@) && container_factories(*self)[name@].demuxer
                == Some(DemuxerFactory::Wav) ==> match r {
                Ok(ContainerDemuxer::Wav(d)) => wav_opened(file.rest(), Ok(d)),
                Ok(ContainerDemuxer::Yuv(_)) => false,
                Err(e) => wav_opened(file.rest(), Err(e)),
            },
    {
        match self.entry(name) {
            None => Err(Error::UnknownContainer),
            Some(entry) => match entry.demuxer {
                None => Err(Error::NoDemuxer),
                Some(f) => f.open(file),
            },
        }
    }
}

impl ContainerExtMapper {
    /// `FxHashMap::default`: a map that holds nothing.
    #[verifier::external_body]
    pub(crate) fn empty() -> (m: Self)
        ensures
            container_extensions(m) == no_extensions(),
    {
        ContainerExtMapper { map: FxHashMap::default() }
    }

    /// `HashMap::insert`: the extension names the container afterwards, in place of any
    /// earlier one; every other extension keeps its container.
    #[verifier::external_body]
    pub(crate) fn insert(&mut self, ext: &'static str, name: &'static str)
        ensures
            container_extensions(*final(self)) == container_extensions(*old(self)).insert(ext@, name@),
    {
        self.map.insert(ext, name);
    }

    /// `HashMap::get`, with the name copied out: the container the extension names, where it
    /// names one.
    #[verifier::external_body]
    fn lookup(&self, ext: &str) -> (r: Option<&str>)
        ensures
            container_extensions(*self).dom().contains(ext@) ==> r is Some && r->0@ == container_extensions(
                *self,
            )[ext@],
            !container_extensions(*self).dom().contains(ext@) ==> r is None,
    {
        self.map.get(ext).copied()
    }

    /// The container that a file extension names: `UnknownContainer` where none is registered
    /// under it.
    pub fn container_for(&self, ext: &str) -> (r: Result<&str, Error>)
        ensures
            container_extensions(*self).dom().contains(ext@) ==> (r matches Ok(n) && n@
                == container_extensions(*self)[ext@]),
            !container_extensions(*self).dom().contains(ext@) ==> r == Err::<&str, Error>(
                Error::UnknownContainer,
            ),
    {
        match self.lookup(ext) {
            Some(n) => Ok(n),
            None => Err(Error::UnknownContainer),
        }
    }
}

/// Registers the WAVE container under its name and under the extension `wav`.
pub fn wav_container(mapper: &mut ContainerMapper, ext_mapper: &mut ContainerExtMapper)
    ensures
        container_factories(*final(mapper)) == container_factories(*old(mapper)).insert("wav"@, wav_entry()),
        container_extensions(*final(ext_mapper)) == container_extensions(*old(ext_mapper)).insert(
            "wav"@,
            "wav"@,
        ),
{
    let entry = ContainerEntry { demuxer: Some(DemuxerFactory::Wav), muxer: Some(MuxerFactory::Wav) };
    mapper.insert("wav", entry);
    ext_mapper.insert("wav", "wav");
}

/// Registers the raw YUV container under its name and under the extension `yuv`.
pub fn yuv_container(mapper: &mut ContainerMapper, ext_mapper: &mut ContainerExtMapper)
    ensures
        container_factories(*final(mapper)) == container_factories(*old(mapper)).insert("yuv"@, yuv_entry()),
        container_extensions(*final(ext_mapper)) == container_extensions(*old(ext_mapper)).insert(
            "yuv"@,
            "yuv"@,
        ),
{
    let entry = ContainerEntry { demuxer: Some(DemuxerFactory::Yuv), muxer: Some(MuxerFactory::Yuv) };
    mapper.insert("yuv", entry);
    ext_mapper.insert("yuv", "yuv");
}

/// The registered containers: WAVE, under its name and its extension.
pub fn register_containers() -> (r: (ContainerMapper, ContainerExtMapper))
    ensures
        container_factories(r.0) == no_containers().insert("wav"@, wav_entry()),
        container_extensions(r.1) == no_extensions().insert("wav"@, "wav"@),
{
    let mut containers = ContainerMapper::empty();
    let mut extensions = ContainerExtMapper::empty();
    wav_container(&mut containers, &mut extensions);
    (containers, extensions)
}

} // verus!
