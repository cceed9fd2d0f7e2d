use vstd::prelude::*;

verus! {

/// Bytes per component of a picture with `depth` bits per component.
pub open spec fn component_bytes(depth: int) -> int {
    if depth <= 8 {
        1
    } else {
        2
    }
}

/// The bytes of one unpadded 4:2:0 picture: a luma plane of `width x height` and two chroma
/// planes of `width / 2 x height / 2`, each component in `component_bytes(depth)` bytes.
pub open spec fn yuv_frame_size(width: int, height: int, depth: int) -> int {
    (width * height + 2 * ((width / 2) * (height / 2))) * component_bytes(depth)
}

/// The layout of a raw YUV 4:2:0 file: picture size, bits per component and pictures per
/// second in thousandths.
#[derive(Debug, Clone, Copy, PartialEq, Eq)]
pub struct YuvFormat {
    pub width: u32,
    pub height: u32,
    /// Bits per component.
    pub depth: u8,
    /// Pictures per second, in thousandths (30 fps is 30000).
    pub fps_millis: u32,
}

impl Default for YuvFormat {
    /// 1920x1080, 8 bits, 30 pictures per second.
    fn default() -> (f: Self)
        ensures
            f == (YuvFormat { width: 1920, height: 1080, depth: 8, fps_millis: 30000 }),
    {
        YuvFormat { width: 1920, height: 1080, depth: 8, fps_millis: 30000 }
    }
}

impl YuvFormat {
    /// A format with these fields.
    pub fn new(width: u32, height: u32, depth: u8, fps_millis: u32) -> (f: Self)
        ensures
            f == (YuvFormat { width, height, depth, fps_millis }),
    {
        YuvFormat { width, height, depth, fps_millis }
    }

    /// The bytes of one picture.
    pub open spec fn spec_frame_size(&self) -> int {
        yuv_frame_size(self.width as int, self.height as int, self.depth as int)
    }

    /// The bytes of one picture, or `None` where that does not fit in `usize`.
    pub fn checked_frame_size(&self) -> (r: Option<usize>)
        ensures
            self.spec_frame_size() <= usize::MAX ==> r == Some(self.spec_frame_size() as usize),
            self.spec_frame_size() > usize::MAX ==> r is None,
    {
        let w = self.width as usize;
        let h = self.height as usize;
        let bytes: usize = if self.depth <= 8 {
            1
        } else {
            2
        };
        let ghost luma = w * h;
        let ghost chroma = (w / 2) * (h / 2);
        let ghost total = self.spec_frame_size();
        assert(0 <= chroma && 2 * chroma <= luma && total == (luma + 2 * chroma) * bytes && luma
            <= total) by (nonlinear_arith)
            requires
                luma == w * h,
                chroma == (w / 2) * (h / 2),
                0 <= w / 2,
                2 * (w / 2) <= w,
                0 <= h / 2,
                2 * (h / 2) <= h,
                total == (luma + 2 * chroma) * bytes,
                1 <= bytes <= 2,
                0 <= w,
                0 <= h,
        ;
        let y = match w.checked_mul(h) {
            Some(n) => n,
            None => return None,
        };
        let c = (w / 2) * (h / 2);
        let planes = match y.checked_add(2 * c) {
            Some(n) => n,
            None => return None,
        };
        assert(planes <= total) by (nonlinear_arith)
            requires
                total == planes * bytes,
                1 <= bytes,
                0 <= planes,
        ;
        match planes.checked_mul(bytes) {
            Some(n) => Some(n),
            None => None,
        }
    }

    /// The bytes of one picture.
    pub fn frame_size(&self) -> (n: usize)
        requires
            self.spec_frame_size() <= usize::MAX,
        ensures
            n == self.spec_frame_size(),
    {
        match self.checked_frame_size() {
            Some(n) => n,
            None => 0,
        }
    }

    /// The codec of the pictures.
    pub fn to_codec_id(&self) -> (s: &'static str)
        ensures
            s@ == "yuv420p"@,
    {
        "yuv420p"
    }
}

} // verus!
