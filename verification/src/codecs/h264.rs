use super::frame::{Frame, VideoFrame};
use crate::error::Error as CodecError;
use crate::media::{Packet, Time};
use openh264::formats::YUVSource;
use vstd::arithmetic::mul::lemma_mul_inequality;
use vstd::prelude::*;

verus! {

#[verifier::external_type_specification]
#[verifier::external_body]
pub struct ExOpenH264Decoder(openh264::decoder::Decoder);

#[verifier::external_type_specification]
#[verifier::external_body]
pub struct ExOpenH264Encoder(openh264::encoder::Encoder);

#[verifier::external_type_specification]
#[verifier::external_body]
pub struct ExOpenH264EncoderConfig(openh264::encoder::EncoderConfig);

#[verifier::external_type_specification]
#[verifier::external_body]
pub struct ExOpenH264Api(openh264::OpenH264API);

/// A picture as the H.264 decoder hands it out: three 4:2:0 planes whose rows lie `strides`
/// bytes apart, of which the first `dimensions.0` (luma) or `dimensions.0 / 2` (chroma) bytes
/// are picture.
pub struct DecodedPicture {
    pub dimensions: (usize, usize),
    pub strides: (usize, usize, usize),
    pub y: Vec<u8>,
    pub u: Vec<u8>,
    pub v: Vec<u8>,
}

/// The first `width` bytes of each of the first `rows` rows of a plane whose rows lie `stride`
/// bytes apart, one after the other.
pub open spec fn plane_rows(plane: Seq<u8>, stride: int, width: int, rows: int) -> Seq<u8>
    decreases rows,
{
    if rows <= 0 {
        Seq::empty()
    } else {
        plane_rows(plane, stride, width, rows - 1) + plane.subrange(
            (rows - 1) * stride,
            (rows - 1) * stride + width,
        )
    }
}

/// Whether a plane holds `rows` rows of `width` bytes at `stride` apart.
pub open spec fn plane_holds(len: int, stride: int, width: int, rows: int) -> bool {
    rows == 0 || (rows - 1) * stride + width <= len
}

/// Whether every plane of the picture holds its rows: luma `width x height`, each chroma plane
/// `width / 2 x height / 2`.
pub open spec fn picture_fits(p: DecodedPicture) -> bool {
    let (w, h) = p.dimensions;
    &&& plane_holds(p.y@.len() as int, p.strides.0 as int, w as int, h as int)
    &&& plane_holds(p.u@.len() as int, p.strides.1 as int, (w / 2) as int, (h / 2) as int)
    &&& plane_holds(p.v@.len() as int, p.strides.2 as int, (w / 2) as int, (h / 2) as int)
}

/// The picture's planes without their row padding: luma, then U, then V.
pub open spec fn packed_yuv420(p: DecodedPicture) -> Seq<u8> {
    let (w, h) = p.dimensions;
    plane_rows(p.y@, p.strides.0 as int, w as int, h as int) + plane_rows(
        p.u@,
        p.strides.1 as int,
        (w / 2) as int,
        (h / 2) as int,
    ) + plane_rows(p.v@, p.strides.2 as int, (w / 2) as int, (h / 2) as int)
}

proof fn lemma_plane_rows_len(plane: Seq<u8>, stride: int, width: int, rows: int)
    requires
        0 <= width,
        0 <= stride,
        0 <= rows,
        plane_holds(plane.len() as int, stride, width, rows),
    ensures
        plane_rows(plane, stride, width, rows).len() == rows * width,
    decreases rows,
{
    if rows > 0 {
        let start = (rows - 1) * stride;
        assert(0 <= start) by (nonlinear_arith)
            requires
                0 <= stride,
                rows >= 1,
                start == (rows - 1) * stride,
        ;
        assert(start + width <= plane.len());
        if rows > 1 {
            assert((rows - 2) * stride + width <= start + width) by (nonlinear_arith)
                requires
                    0 <= stride,
                    rows >= 2,
                    start == (rows - 1) * stride,
            ;
        }
        lemma_plane_rows_len(plane, stride, width, rows - 1);
        assert(plane.subrange(start, start + width).len() == width);
        assert((rows - 1) * width + width == rows * width) by (nonlinear_arith);
        assert(plane_rows(plane, stride, width, rows) == plane_rows(plane, stride, width, rows - 1) + plane.subrange(
            start,
            start + width,
        ));
    } else {
        assert(rows * width == 0) by (nonlinear_arith)
            requires
                rows == 0,
        ;
    }
}

/// Appends the first `width` bytes of each of the first `rows` rows of `plane`.
fn push_rows(out: &mut Vec<u8>, plane: &[u8], stride: usize, width: usize, rows: usize)
    requires
        plane_holds(plane@.len() as int, stride as int, width as int, rows as int),
    ensures
        final(out)@ == old(out)@ + plane_rows(plane@, stride as int, width as int, rows as int),
{
    let ghost start = out@;
    let len = plane.len();
    let mut row: usize = 0;
    while row < rows
        invariant
            row <= rows,
            len == plane@.len(),
            plane_holds(plane@.len() as int, stride as int, width as int, rows as int),
            out@ == start + plane_rows(plane@, stride as int, width as int, row as int),
        decreases rows - row,
    {
        proof {
            lemma_mul_inequality(row as int, rows - 1, stride as int);
        }
        let first = row * stride;
        let ghost before = out@;
        let mut i: usize = 0;
        while i < width
            invariant
                i <= width,
                first == row * stride,
                first + width <= plane@.len(),
                len == plane@.len(),
                out@ == before + plane@.subrange(first as int, first + i),
            decreases width - i,
        {
            out.push(plane[first + i]);
            i = i + 1;
            assert(plane@.subrange(first as int, first + i) =~= plane@.subrange(
                first as int,
                first + i - 1,
            ).push(plane@[first + i - 1]));
        }
        row = row + 1;
        assert(out@ =~= start + plane_rows(plane@, stride as int, width as int, row as int));
    }
}

/// The picture's planes without their row padding, luma first, then U and V.
pub fn pack_yuv420(p: &DecodedPicture) -> (r: Vec<u8>)
    requires
        picture_fits(*p),
    ensures
        r@ == packed_yuv420(*p),
        r@.len() == luma_size(p.dimensions.0 as int, p.dimensions.1 as int) + 2 * chroma_size(
            p.dimensions.0 as int,
            p.dimensions.1 as int,
        ),
{
    let (width, height) = p.dimensions;
    let (y_stride, u_stride, v_stride) = p.strides;
    let mut data: Vec<u8> = Vec::new();
    push_rows(&mut data, p.y.as_slice(), y_stride, width, height);
    push_rows(&mut data, p.u.as_slice(), u_stride, width / 2, height / 2);
    push_rows(&mut data, p.v.as_slice(), v_stride, width / 2, height / 2);
    assert(data@ =~= packed_yuv420(*p));
    proof {
        lemma_plane_rows_len(p.y@, y_stride as int, width as int, height as int);
        lemma_plane_rows_len(p.u@, u_stride as int, (width / 2) as int, (height / 2) as int);
        lemma_plane_rows_len(p.v@, v_stride as int, (width / 2) as int, (height / 2) as int);
        assert((height / 2) as int * (width / 2) as int == (width / 2) as int * (height / 2) as int) by (nonlinear_arith);
        assert(height as int * width as int == width as int * height as int) by (nonlinear_arith);
    }
    data
}

/// `openh264::decoder::Decoder::new`: a decoder with default settings and the built-in
/// library. Its source says it should never fail but cannot rule it out, so nothing is stated.
#[verifier::external_body]
fn open_decoder() -> (r: Result<openh264::decoder::Decoder, ()>) {
    openh264::decoder::Decoder::new().map_err(|_| ())
}

/// What `openh264::decoder::Decoder::decode` gives on a decoder made by `Decoder::new` (one
/// decoding thread) once it has been fed `fed`, one call per entry: the latest picture, if one
/// is ready, with its size, strides and planes copied out, or a failure.
pub uninterp spec fn h264_decoded(fed: Seq<Seq<u8>>) -> Result<Option<DecodedPicture>, ()>;

/// `openh264::decoder::Decoder::decode` on the decoder that `dec` holds: feeds it the NAL units
/// in `data` and hands out the latest picture, if one is ready, with its size, strides and
/// planes copied out. `data` is recorded in `dec`'s history of inputs, and what comes back is
/// what the library gives for that whole history: with a single decoding thread its output
/// depends on the bytes fed so far alone.
#[verifier::external_body]
fn decode_nal_units(dec: &mut H264Decoder, data: &[u8]) -> (r: Result<Option<DecodedPicture>, ()>)
    ensures
        final(dec).fed() == old(dec).fed().push(data@),
        r == h264_decoded(final(dec).fed()),
{
    let picture = dec.decoder.decode(data).map_err(|_| ())?;
    Ok(picture.map(|yuv| DecodedPicture {
        dimensions: yuv.dimensions(),
        strides: yuv.strides(),
        y: yuv.y().to_vec(),
        u: yuv.u().to_vec(),
        v: yuv.v().to_vec(),
    }))
}

/// Whether `f` is the frame that the decoded picture `p` makes: `p`'s planes fit its size and
/// strides, and `f` holds them packed without padding, at `p`'s size and 8 bits per component,
/// with this keyframe flag, stream and time.
pub open spec fn frame_of_picture(f: VideoFrame, p: DecodedPicture, keyframe: bool, stream_id: u32, pts: i64) -> bool {
    &&& picture_fits(p)
    &&& f.data@ == packed_yuv420(p)
    &&& f.width == p.dimensions.0 as u32
    &&& f.height == p.dimensions.1 as u32
    &&& f.depth == 8
    &&& f.keyframe == keyframe
    &&& f.stream_id == stream_id
    &&& f.pts == pts
}

/// The frame a decoded picture makes: its planes without padding, 8 bits per component, with the
/// packet's keyframe flag, stream and time. A picture whose planes are too short for its size
/// and strides is refused.
pub fn picture_frame(picture: &DecodedPicture, keyframe: bool, stream_id: u32, pts: i64) -> (r:
    Result<Frame, CodecError>)
    ensures
        !picture_fits(*picture) ==> r == Err::<Frame, CodecError>(CodecError::MalformedPicture),
        picture_fits(*picture) ==> (r matches Ok(Frame::Video(f)) && {
            &&& f.data@ == packed_yuv420(*picture)
            &&& f.data@.len() == luma_size(picture.dimensions.0 as int, picture.dimensions.1 as int) + 2
                * chroma_size(picture.dimensions.0 as int, picture.dimensions.1 as int)
            &&& f.width == picture.dimensions.0 as u32
            &&& f.height == picture.dimensions.1 as u32
            &&& f.depth == 8
            &&& f.keyframe == keyframe
            &&& f.stream_id == stream_id
            &&& f.pts == pts
        }),
{
    if !fits(picture) {
        return Err(CodecError::MalformedPicture);
    }
    let data = pack_yuv420(picture);
    let (width, height) = picture.dimensions;
    Ok(
        Frame::Video(
            VideoFrame {
                data,
                width: width as u32,
                height: height as u32,
                depth: 8,
                keyframe,
                stream_id,
                pts,
            },
        ),
    )
}

/// Whether a plane of `len` bytes holds `rows` rows of `width` bytes lying `stride` apart.
fn holds(len: usize, stride: usize, width: usize, rows: usize) -> (r: bool)
    ensures
        r == plane_holds(len as int, stride as int, width as int, rows as int),
{
    if rows == 0 {
        return true;
    }
    match (rows - 1).checked_mul(stride) {
        Some(start) => match start.checked_add(width) {
            Some(end) => end <= len,
            None => false,
        },
        None => {
            proof {
                lemma_mul_inequality(0, (rows - 1) as int, stride as int);
            }
            false
        },
    }
}

fn fits(p: &DecodedPicture) -> (r: bool)
    ensures
        r == picture_fits(*p),
{
    let (w, h) = p.dimensions;
    holds(p.y.len(), p.strides.0, w, h) && holds(p.u.len(), p.strides.1, w / 2, h / 2) && holds(
        p.v.len(),
        p.strides.2,
        w / 2,
        h / 2,
    )
}

/// An H.264 decoder, with the record of the data it has been fed.
pub struct H264Decoder {
    decoder: openh264::decoder::Decoder,
    fed: Ghost<Seq<Seq<u8>>>,
}

impl H264Decoder {
    /// The data the decoder has been fed, one entry per call of the library's decoder.
    pub closed spec fn fed(&self) -> Seq<Seq<u8>> {
        self.fed@
    }

    /// A decoder with default settings, fed nothing yet; fails with `CodecFailed` where the
    /// library does.
    pub fn new() -> (r: Result<Self, CodecError>)
        ensures
            r is Err ==> r == Err::<Self, CodecError>(CodecError::CodecFailed),
            r matches Ok(d) ==> d.fed() == Seq::<Seq<u8>>::empty(),
    {
        match open_decoder() {
            Ok(decoder) => Ok(H264Decoder { decoder, fed: Ghost(Seq::empty()) }),
            Err(_) => Err(CodecError::CodecFailed),
        }
    }

    /// Feeds the packet's bytes, exactly, to the decoder: nothing for an empty packet, which is
    /// not fed; otherwise the picture the decoder has ready, if any, as `picture_frame` makes it, with the packet's keyframe flag,
    /// stream and time; `CodecFailed` where the library fails. What the library gives is
    /// `h264_decoded` of all the decoder has been fed, this packet last.
    pub fn decode(&mut self, packet: Packet) -> (r: Result<Option<Frame>, CodecError>)
        ensures
            packet.data@.len() == 0 ==> r == Ok::<Option<Frame>, CodecError>(None) && final(self).fed() == old(
                self,
            ).fed(),
            packet.data@.len() > 0 ==> final(self).fed() == old(self).fed().push(packet.data@),
            packet.data@.len() > 0 ==> match h264_decoded(final(self).fed()) {
                Err(_) => r == Err::<Option<Frame>, CodecError>(CodecError::CodecFailed),
                Ok(None) => r == Ok::<Option<Frame>, CodecError>(None),
                Ok(Some(p)) => if picture_fits(p) {
                    r matches Ok(Some(Frame::Video(f))) && frame_of_picture(
                        f,
                        p,
                        packet.keyframe,
                        packet.stream_id,
                        packet.pts,
                    )
                } else {
                    r == Err::<Option<Frame>, CodecError>(CodecError::MalformedPicture)
                },
            },
            r matches Err(e) ==> (e == CodecError::CodecFailed || e == CodecError::MalformedPicture),
            r matches Ok(Some(frame)) ==> (frame matches Frame::Video(f) && exists|p: DecodedPicture|
                #[trigger] frame_of_picture(f, p, packet.keyframe, packet.stream_id, packet.pts)),
    {
        if packet.is_empty() {
            return Ok(None);
        }
        match decode_nal_units(self, packet.data.as_slice()) {
            Err(_) => Err(CodecError::CodecFailed),
            Ok(None) => Ok(None),
            Ok(Some(picture)) => match picture_frame(
                &picture,
                packet.keyframe,
                packet.stream_id,
                packet.pts,
            ) {
                Ok(frame) => {
                    assert(frame matches Frame::Video(f) && frame_of_picture(
                        f,
                        picture,
                        packet.keyframe,
                        packet.stream_id,
                        packet.pts,
                    ));
                    Ok(Some(frame))
                },
                Err(e) => Err(e),
            },
        }
    }

    /// Nothing is held back.
    pub fn flush(&mut self) -> (r: Result<Option<Frame>, CodecError>)
        ensures
            r == Ok::<Option<Frame>, CodecError>(None),
    {
        Ok(None)
    }
}

/// `openh264::OpenH264API::from_source`: the codec library built into this program.
#[verifier::external_body]
fn builtin_api() -> (r: openh264::OpenH264API) {
    openh264::OpenH264API::from_source()
}

/// `openh264::encoder::Encoder::new`: an encoder with default settings and the built-in
/// library. Its source says it should never fail but cannot rule it out, so nothing is stated.
#[verifier::external_body]
fn open_encoder() -> (r: Result<openh264::encoder::Encoder, ()>) {
    openh264::encoder::Encoder::new().map_err(|_| ())
}

/// `openh264::encoder::Encoder::with_api_config`: an encoder with the given library and
/// settings; it fails where the library refuses them, which is not stated.
#[verifier::external_body]
fn open_encoder_with(api: openh264::OpenH264API, config: openh264::encoder::EncoderConfig) -> (r:
    Result<openh264::encoder::Encoder, ()>) {
    openh264::encoder::Encoder::with_api_config(api, config).map_err(|_| ())
}

/// `openh264::encoder::Encoder::encode` on the 4:2:0 picture that
/// `openh264::formats::YUVSlices::new` makes of three unpadded planes (strides `width`,
/// `width / 2`, `width / 2`), the bitstream copied out. The `requires` are what
/// `YUVSlices::new` asserts. What comes back depends on the pictures encoded before, so nothing
/// is stated of it.
#[verifier::external_body]
fn encode_planes(
    encoder: &mut openh264::encoder::Encoder,
    y: &[u8],
    u: &[u8],
    v: &[u8],
    width: usize,
    height: usize,
    chroma_width: usize,
) -> (r: Result<Vec<u8>, ()>)
    requires
        chroma_width == width / 2,
        y@.len() == height * width,
        u@.len() == (height / 2) * chroma_width,
        v@.len() == (height / 2) * chroma_width,
{
    let dimensions = (width, height);
    let strides = (width, chroma_width, chroma_width);
    let yuv = openh264::formats::YUVSlices::new((y, u, v), dimensions, strides);
    encoder.encode(&yuv).map(|bits| bits.to_vec()).map_err(|_| ())
}

/// The number of luma bytes of an unpadded 4:2:0 picture.
pub open spec fn luma_size(width: int, height: int) -> int {
    width * height
}

/// The number of bytes of each chroma plane of an unpadded 4:2:0 picture.
pub open spec fn chroma_size(width: int, height: int) -> int {
    (width / 2) * (height / 2)
}

/// The three planes of an unpadded 4:2:0 picture of `width x height` at the start of `data`:
/// luma, then U, then V; `None` where `data` is shorter than they are together.
pub fn yuv420_planes(data: &[u8], width: u32, height: u32) -> (r: Option<(&[u8], &[u8], &[u8])>)
    ensures
        ({
            let ys = luma_size(width as int, height as int);
            let cs = chroma_size(width as int, height as int);
            &&& data@.len() < ys + 2 * cs ==> r is None
            &&& data@.len() >= ys + 2 * cs ==> (r matches Some((y, u, v)) && {
                &&& y@ == data@.subrange(0, ys)
                &&& u@ == data@.subrange(ys, ys + cs)
                &&& v@ == data@.subrange(ys + cs, ys + 2 * cs)
            })
        }),
{
    let len = data.len();
    let w = width as usize;
    let h = height as usize;
    let ghost ys = luma_size(width as int, height as int);
    let ghost cs = chroma_size(width as int, height as int);
    assert(0 <= ys && 0 <= cs) by (nonlinear_arith)
        requires
            ys == width * height,
            cs == (width / 2) * (height / 2),
            0 <= width,
            0 <= height,
    ;
    let y_size = match w.checked_mul(h) {
        Some(n) => n,
        None => {
            assert(ys > usize::MAX);
            return None;
        },
    };
    let uv_size = match (w / 2).checked_mul(h / 2) {
        Some(n) => n,
        None => {
            assert(cs > usize::MAX);
            return None;
        },
    };
    let total = match y_size.checked_add(uv_size) {
        Some(n) => match n.checked_add(uv_size) {
            Some(t) => t,
            None => return None,
        },
        None => return None,
    };
    if len < total {
        return None;
    }
    let y = vstd::slice::slice_subrange(data, 0, y_size);
    let u = vstd::slice::slice_subrange(data, y_size, y_size + uv_size);
    let v = vstd::slice::slice_subrange(data, y_size + uv_size, total);
    Some((y, u, v))
}

/// The packet an encoded bitstream makes: none where it is empty; otherwise the bytes with the
/// frame's stream, time and keyframe flag and a time base of `1 / fps`.
pub fn encoded_packet(bits: Vec<u8>, stream_id: u32, pts: i64, keyframe: bool, fps: u32) -> (r:
    Option<Packet>)
    ensures
        bits@.len() == 0 ==> r is None,
        bits@.len() > 0 ==> (r matches Some(p) && {
            &&& p.data@ == bits@
            &&& p.stream_id == stream_id
            &&& p.time == Time { num: 1, den: fps }
            &&& p.pts == pts
            &&& p.keyframe == keyframe
        }),
{
    if bits.len() == 0 {
        return None;
    }
    Some(Packet { data: bits, stream_id, time: Time::new(1, fps), pts, keyframe })
}

/// An H.264 encoder for pictures shown `fps` times a second.
pub struct H264Encoder {
    encoder: openh264::encoder::Encoder,
    fps: u32,
}

impl H264Encoder {
    /// The pictures per second that packets are timed by.
    pub closed spec fn frame_rate(self) -> u32 {
        self.fps
    }

    /// The pictures per second that packets are timed by.
    pub fn fps(&self) -> (r: u32)
        ensures
            r == self.frame_rate(),
    {
        self.fps
    }

    /// An encoder with default settings; fails with `CodecFailed` where the library does.
    pub fn new(fps: u32) -> (r: Result<Self, CodecError>)
        ensures
            r matches Ok(e) ==> e.frame_rate() == fps,
            r is Err ==> r == Err::<Self, CodecError>(CodecError::CodecFailed),
    {
        match open_encoder() {
            Ok(encoder) => Ok(H264Encoder { encoder, fps }),
            Err(_) => Err(CodecError::CodecFailed),
        }
    }

    /// An encoder with the given settings and the built-in library; fails with `CodecFailed`
    /// where the library refuses them.
    pub fn with_config(config: openh264::encoder::EncoderConfig, fps: u32) -> (r: Result<
        Self,
        CodecError,
    >)
        ensures
            r matches Ok(e) ==> e.frame_rate() == fps,
            r is Err ==> r == Err::<Self, CodecError>(CodecError::CodecFailed),
    {
        let api = builtin_api();
        match open_encoder_with(api, config) {
            Ok(encoder) => Ok(H264Encoder { encoder, fps }),
            Err(_) => Err(CodecError::CodecFailed),
        }
    }

    /// Encodes a picture: nothing for an audio frame; `WrongFormat` for a picture that is not
    /// 8-bit 4:2:0; `FrameTooSmall` where its data is shorter than its three planes; otherwise
    /// the planes `yuv420_planes` finds go to the library, and what it returns becomes a packet
    /// as `encoded_packet` makes it (`CodecFailed` where it fails).
    pub fn encode(&mut self, frame: Frame) -> (r: Result<Option<Packet>, CodecError>)
        ensures
            final(self).frame_rate() == old(self).frame_rate(),
            frame is Audio ==> r == Ok::<Option<Packet>, CodecError>(None),
            frame matches Frame::Video(f) ==> {
                let ys = luma_size(f.width as int, f.height as int);
                let cs = chroma_size(f.width as int, f.height as int);
                &&& f.depth != 8 ==> r == Err::<Option<Packet>, CodecError>(CodecError::WrongFormat)
                &&& (f.depth == 8 && f.data@.len() < ys + 2 * cs) ==> r == Err::<
                    Option<Packet>,
                    CodecError,
                >(CodecError::FrameTooSmall)
                &&& r matches Err(e) ==> (e == CodecError::WrongFormat || e
                    == CodecError::FrameTooSmall || e == CodecError::CodecFailed)
                &&& (f.depth == 8 && f.data@.len() >= ys + 2 * cs) ==> (r is Ok || r == Err::<
                    Option<Packet>,
                    CodecError,
                >(CodecError::CodecFailed))
                &&& r matches Ok(Some(p)) ==> {
                    &&& p.data@.len() > 0
                    &&& p.stream_id == f.stream_id
                    &&& p.time == Time { num: 1, den: old(self).frame_rate() }
                    &&& p.pts == f.pts
                    &&& p.keyframe == f.keyframe
                }
            },
    {
        let video = match frame {
            Frame::Video(v) => v,
            Frame::Audio(_) => return Ok(None),
        };
        if video.depth != 8 {
            return Err(CodecError::WrongFormat);
        }
        let (y, u, v) = match yuv420_planes(video.data.as_slice(), video.width, video.height) {
            Some(planes) => planes,
            None => return Err(CodecError::FrameTooSmall),
        };
        let width = video.width as usize;
        let height = video.height as usize;
        assert(height * width == width * height && (height / 2) * (width / 2) == (width / 2) * (
        height / 2)) by (nonlinear_arith);
        let bits = match encode_planes(&mut self.encoder, y, u, v, width, height, width / 2) {
            Ok(bits) => bits,
            Err(_) => return Err(CodecError::CodecFailed),
        };
        Ok(encoded_packet(bits, video.stream_id, video.pts, video.keyframe, self.fps))
    }

    /// Nothing is held back.
    pub fn flush(&mut self) -> (r: Result<Option<Packet>, CodecError>)
        ensures
            r == Ok::<Option<Packet>, CodecError>(None),
    {
        Ok(None)
    }
}

} // verus!
