use vstd::prelude::*;

verus! {

/// Everything that can go wrong while reading, validating or writing media data.
#[derive(Debug, Clone, Copy, PartialEq, Eq)]
pub enum Error {
    /// The input ended before a value that had to be read.
    UnexpectedEof,
    /// A four-character code differs from the one the format requires; both are given as
    /// their four bytes read big-endian (`RIFF` is `0x52494646`).
    BadFourcc { expected: u32, found: u32 },
    /// A `fmt ` chunk shorter than 16 bytes.
    FmtChunkTooSmall,
    /// A FLAC STREAMINFO block shorter than 34 bytes.
    StreamInfoTooSmall,
    /// A FLAC metadata block whose type is not in 0..=6.
    UnknownMetadataBlock(u8),
    /// A stream header that declares no channels.
    ZeroChannels,
    /// A stream header that declares a sample rate of zero.
    ZeroSampleRate,
    /// A stream header that declares a block alignment of zero.
    ZeroBlockAlign,
    /// A stream header that declares a byte rate of zero.
    ZeroByteRate,
    /// A WAVE format code that is neither PCM, IEEE float nor IMA ADPCM.
    UnsupportedFormatCode(u16),
    /// PCM data with zero bits per sample.
    ZeroBitsPerSample,
    /// PCM data whose bits per sample is not a multiple of eight.
    BitsNotByteMultiple,
    /// IMA ADPCM data whose bits per sample is not four.
    ImaAdpcmBits,
    /// A time base whose denominator is zero.
    ZeroTimeBase,
    /// A raw YUV format whose frames hold no bytes.
    ZeroFrameSize,
    /// A Matroska packet addressed to track zero.
    ZeroTrackNumber,
    /// A codec name that the FLAC muxer cannot store.
    UnsupportedFlacCodec,
    /// A frame handed to a codec of the wrong kind.
    WrongFrameKind,
    /// A format handed to a muxer or codec that does not take it.
    WrongFormat,
    /// A command-line token that is not a flag.
    UnknownFlag,
    /// A flag that takes a value came last on the command line.
    MissingValue,
    /// `--json` given to a command that does not take it.
    JsonNotAllowed,
    /// A command-line token that the loose syntax does not take.
    UnexpectedArgument,
    /// An input path that does not exist.
    PathNotFound,
    /// No input path (`-i`) was given.
    MissingInput,
    /// No output path (`-o`) was given where one is needed.
    MissingOutput,
    /// A path without an extension, where the container is chosen by it.
    MissingExtension,
    /// A container that no pipeline handles.
    UnsupportedContainer,
    /// A pipeline that exists in name only.
    NotImplemented,
    /// An input container that the FLAC pipeline cannot read.
    UnsupportedFlacInput,
    /// A value that does not fit the field that must hold it.
    Overflow,
    /// A bit depth the PCM converter does not handle.
    UnsupportedBitDepth,
    /// PCM data whose length is not a whole number of samples.
    InvalidPcmLength,
    /// The H.264 codec library reported a failure.
    CodecFailed,
    /// A decoded picture whose planes are shorter than its size and strides call for.
    MalformedPicture,
    /// A picture whose data is shorter than its size calls for.
    FrameTooSmall,
    /// A codec name that no registered codec has.
    UnknownCodec,
    /// A registered codec that has no decoder.
    NoDecoder,
    /// A registered codec that has no encoder.
    NoEncoder,
    /// A container name, or a file extension, that no registered container has.
    UnknownContainer,
    /// A registered container that has no demuxer.
    NoDemuxer,
}

} // verus!
