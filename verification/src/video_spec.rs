//! Formats of video frames, and what is offered when one is negotiated.
use crate::model::{BackendError, BackendErrorView};
use crate::text::concat2;
use vstd::prelude::*;

verus! {

/// How the pixels of a frame are stored.
#[derive(Clone, Copy, Debug, PartialEq, Eq, Structural)]
pub enum VideoPixelFormat {
    Rgbx,
    Bgrx,
    Rgba,
    Nv12,
    I420,
}

/// The formats of the media server that are known here, and any other by its
/// name.
#[derive(Clone, Debug, PartialEq, Eq)]
pub enum SpaVideoFormat {
    RGBx,
    BGRx,
    RGBA,
    NV12,
    I420,
    Other(String),
}

/// The widest frame.
pub const MAX_VIDEO_WIDTH: u32 = 7680;

/// The highest frame.
pub const MAX_VIDEO_HEIGHT: u32 = 4320;

/// The most frames in a second.
pub const MAX_VIDEO_FPS: u32 = 240;

/// The largest frame.
pub const MAX_FRAME_BYTES: usize = 132_710_400;

/// The pixel formats that are negotiated, the preferred one first.
pub open spec fn supported_formats() -> Seq<VideoPixelFormat> {
    seq![
        VideoPixelFormat::Rgbx,
        VideoPixelFormat::Bgrx,
        VideoPixelFormat::Rgba,
        VideoPixelFormat::Nv12,
        VideoPixelFormat::I420,
    ]
}

pub fn supported_pixel_formats() -> (r: Vec<VideoPixelFormat>)
    ensures
        r@ == supported_formats(),
{
    let mut formats: Vec<VideoPixelFormat> = Vec::new();
    formats.push(VideoPixelFormat::Rgbx);
    formats.push(VideoPixelFormat::Bgrx);
    formats.push(VideoPixelFormat::Rgba);
    formats.push(VideoPixelFormat::Nv12);
    formats.push(VideoPixelFormat::I420);
    assert(formats@ =~= supported_formats());
    formats
}

/// The pixel format of a format of the media server, if frames of it can be
/// processed.
pub open spec fn pixel_of(format: SpaVideoFormat) -> Option<VideoPixelFormat> {
    match format {
        SpaVideoFormat::RGBx => Some(VideoPixelFormat::Rgbx),
        SpaVideoFormat::BGRx => Some(VideoPixelFormat::Bgrx),
        SpaVideoFormat::RGBA => Some(VideoPixelFormat::Rgba),
        SpaVideoFormat::NV12 => Some(VideoPixelFormat::Nv12),
        SpaVideoFormat::I420 => Some(VideoPixelFormat::I420),
        SpaVideoFormat::Other(_) => None,
    }
}

pub fn spa_format_to_pixel(format: &SpaVideoFormat) -> (r: Option<VideoPixelFormat>)
    ensures
        r == pixel_of(*format),
{
    match format {
        SpaVideoFormat::RGBx => Some(VideoPixelFormat::Rgbx),
        SpaVideoFormat::BGRx => Some(VideoPixelFormat::Bgrx),
        SpaVideoFormat::RGBA => Some(VideoPixelFormat::Rgba),
        SpaVideoFormat::NV12 => Some(VideoPixelFormat::Nv12),
        SpaVideoFormat::I420 => Some(VideoPixelFormat::I420),
        SpaVideoFormat::Other(_) => None,
    }
}

/// The media server's format for a pixel format.
pub open spec fn spa_of(format: VideoPixelFormat) -> SpaVideoFormat {
    match format {
        VideoPixelFormat::Rgbx => SpaVideoFormat::RGBx,
        VideoPixelFormat::Bgrx => SpaVideoFormat::BGRx,
        VideoPixelFormat::Rgba => SpaVideoFormat::RGBA,
        VideoPixelFormat::Nv12 => SpaVideoFormat::NV12,
        VideoPixelFormat::I420 => SpaVideoFormat::I420,
    }
}

pub fn pixel_to_spa(format: VideoPixelFormat) -> (r: SpaVideoFormat)
    ensures
        r == spa_of(format),
{
    match format {
        VideoPixelFormat::Rgbx => SpaVideoFormat::RGBx,
        VideoPixelFormat::Bgrx => SpaVideoFormat::BGRx,
        VideoPixelFormat::Rgba => SpaVideoFormat::RGBA,
        VideoPixelFormat::Nv12 => SpaVideoFormat::NV12,
        VideoPixelFormat::I420 => SpaVideoFormat::I420,
    }
}

/// Every pixel format comes back from the media server as what it was, and
/// every one of them is negotiated.
pub proof fn law_formats_round_trip(format: VideoPixelFormat)
    ensures
        pixel_of(spa_of(format)) == Some(format),
        supported_formats().contains(format),
{
    let all = supported_formats();
    assert(all[0] == VideoPixelFormat::Rgbx);
    assert(all[1] == VideoPixelFormat::Bgrx);
    assert(all[2] == VideoPixelFormat::Rgba);
    assert(all[3] == VideoPixelFormat::Nv12);
    assert(all[4] == VideoPixelFormat::I420);
}

/// The geometry and format of a stream of frames.
#[derive(Clone, Copy, Debug, PartialEq, Eq, Structural)]
pub struct VideoSpec {
    pub width: u32,
    pub height: u32,
    pub framerate_num: u32,
    pub framerate_den: u32,
    pub format: VideoPixelFormat,
}

/// Why a format is not taken.
#[derive(Clone, Debug, PartialEq, Eq)]
pub enum VideoError {
    UnsupportedFormat(String),
    InvalidSpec(String),
}

/// What is shown for a video error.
pub open spec fn video_error_text(error: VideoError) -> Seq<char> {
    match error {
        VideoError::UnsupportedFormat(text) => text@,
        VideoError::InvalidSpec(text) => text@,
    }
}

impl VideoError {
    pub fn to_text(&self) -> (r: String)
        ensures
            r@ == video_error_text(*self),
    {
        match self {
            VideoError::UnsupportedFormat(text) => text.clone(),
            VideoError::InvalidSpec(text) => text.clone(),
        }
    }
}

impl VideoSpec {
    /// How many bytes a frame takes. The formats with separate colour planes
    /// store one colour sample for four pixels, rounded up on each axis.
    pub open spec fn bytes(self) -> int {
        match self.format {
            VideoPixelFormat::Rgbx | VideoPixelFormat::Bgrx | VideoPixelFormat::Rgba => self.width
                * self.height * 4,
            VideoPixelFormat::Nv12 | VideoPixelFormat::I420 => self.width * self.height + 2 * ((
            self.width + 1) / 2 * ((self.height + 1) / 2)),
        }
    }

    /// Why frames of this kind are not taken.
    pub open spec fn flaw(self) -> Option<Seq<char>> {
        if self.width == 0 || self.height == 0 {
            Some("video size must be nonzero"@)
        } else if self.width > MAX_VIDEO_WIDTH || self.height > MAX_VIDEO_HEIGHT {
            Some("video size exceeds the limit"@)
        } else if self.framerate_num == 0 || self.framerate_den == 0 {
            Some("video frame rate must be nonzero"@)
        } else if self.framerate_num > MAX_VIDEO_FPS * self.framerate_den {
            Some("video frame rate exceeds the limit"@)
        } else {
            None
        }
    }

    pub open spec fn valid(self) -> bool {
        self.flaw() is None
    }

    pub fn validate(&self) -> (r: Result<(), VideoError>)
        ensures
            match self.flaw() {
                None => r is Ok,
                Some(text) => r matches Err(VideoError::InvalidSpec(message)) && message@ == text,
            },
    {
        if self.width == 0 || self.height == 0 {
            return Err(VideoError::InvalidSpec("video size must be nonzero".to_owned()));
        }
        if self.width > MAX_VIDEO_WIDTH || self.height > MAX_VIDEO_HEIGHT {
            return Err(VideoError::InvalidSpec("video size exceeds the limit".to_owned()));
        }
        if self.framerate_num == 0 || self.framerate_den == 0 {
            return Err(VideoError::InvalidSpec("video frame rate must be nonzero".to_owned()));
        }
        if self.framerate_num as u64 > MAX_VIDEO_FPS as u64 * self.framerate_den as u64 {
            return Err(VideoError::InvalidSpec("video frame rate exceeds the limit".to_owned()));
        }
        Ok(())
    }

    /// A spec that is valid.
    pub fn new(
        width: u32,
        height: u32,
        framerate_num: u32,
        framerate_den: u32,
        format: VideoPixelFormat,
    ) -> (r: Result<VideoSpec, VideoError>)
        ensures
            ({
                let spec = VideoSpec { width, height, framerate_num, framerate_den, format };
                match spec.flaw() {
                    None => r == Ok::<VideoSpec, VideoError>(spec),
                    Some(text) => r matches Err(VideoError::InvalidSpec(message)) && message@
                        == text,
                }
            }),
    {
        let spec = VideoSpec { width, height, framerate_num, framerate_den, format };
        match spec.validate() {
            Ok(()) => Ok(spec),
            Err(error) => Err(error),
        }
    }

    pub fn frame_bytes(&self) -> (r: Result<usize, VideoError>)
        ensures
            match self.flaw() {
                None => r == Ok::<usize, VideoError>(self.bytes() as usize) && 0 < self.bytes()
                    <= MAX_FRAME_BYTES,
                Some(text) => r matches Err(VideoError::InvalidSpec(message)) && message@ == text,
            },
    {
        match self.validate() {
            Err(error) => Err(error),
            Ok(()) => {
                let width: usize = self.width as usize;
                let height: usize = self.height as usize;
                assert(0 < width * height <= 7680 * 4320) by (nonlinear_arith)
                    requires
                        0 < width <= 7680,
                        0 < height <= 4320,
                ;
                let half_width: usize = (width + 1) / 2;
                let half_height: usize = (height + 1) / 2;
                assert(0 <= half_width * half_height <= 3840 * 2160) by (nonlinear_arith)
                    requires
                        0 <= half_width <= 3840,
                        0 <= half_height <= 2160,
                ;
                match self.format {
                    VideoPixelFormat::Rgbx | VideoPixelFormat::Bgrx | VideoPixelFormat::Rgba => Ok(
                        width * height * 4,
                    ),
                    VideoPixelFormat::Nv12 | VideoPixelFormat::I420 => Ok(
                        width * height + 2 * (half_width * half_height),
                    ),
                }
            },
        }
    }
}

/// A valid frame is never larger than the largest.
pub proof fn law_frames_are_bounded(spec: VideoSpec)
    requires
        spec.valid(),
    ensures
        0 < spec.bytes() <= MAX_FRAME_BYTES,
{
    let w = spec.width as int;
    let h = spec.height as int;
    assert(0 < w * h <= 7680 * 4320) by (nonlinear_arith)
        requires
            0 < w <= 7680,
            0 < h <= 4320,
    ;
    let a = (w + 1) / 2;
    let b = (h + 1) / 2;
    assert(0 <= a * b <= 3840 * 2160) by (nonlinear_arith)
        requires
            0 <= a <= 3840,
            0 <= b <= 2160,
    ;
}

/// What was negotiated.
#[derive(Debug, PartialEq, Eq)]
pub struct VideoInfo {
    pub format: SpaVideoFormat,
    pub width: u32,
    pub height: u32,
    pub framerate_num: u32,
    pub framerate_den: u32,
}

/// The frame rate that counts: thirty where none was negotiated.
pub open spec fn rate_of(num: u32, den: u32) -> (u32, u32) {
    if num == 0 || den == 0 {
        (30, 1)
    } else {
        (num, den)
    }
}

/// The name of a format in messages.
pub open spec fn spa_name(format: SpaVideoFormat) -> Seq<char> {
    match format {
        SpaVideoFormat::RGBx => "RGBx"@,
        SpaVideoFormat::BGRx => "BGRx"@,
        SpaVideoFormat::RGBA => "RGBA"@,
        SpaVideoFormat::NV12 => "NV12"@,
        SpaVideoFormat::I420 => "I420"@,
        SpaVideoFormat::Other(name) => name@,
    }
}

/// The spec of what was negotiated.
pub open spec fn negotiated(info: VideoInfo) -> Result<VideoSpec, Seq<char>> {
    match pixel_of(info.format) {
        None => Err("unsupported SPA video format "@ + spa_name(info.format)),
        Some(format) => {
            let (num, den) = rate_of(info.framerate_num, info.framerate_den);
            let spec = VideoSpec {
                width: info.width,
                height: info.height,
                framerate_num: num,
                framerate_den: den,
                format,
            };
            match spec.flaw() {
                None => Ok(spec),
                Some(text) => Err(text),
            }
        },
    }
}

/// Turns what was negotiated into a spec.
pub fn video_info_to_spec(info: &VideoInfo) -> (r: Result<VideoSpec, VideoError>)
    ensures
        match negotiated(*info) {
            Ok(spec) => r == Ok::<VideoSpec, VideoError>(spec),
            Err(text) => r matches Err(e) && video_error_text(e) == text && (e is UnsupportedFormat
                == (pixel_of(info.format) is None)),
        },
{
    let format = match spa_format_to_pixel(&info.format) {
        Some(format) => format,
        None => {
            let name = match &info.format {
                SpaVideoFormat::Other(name) => name.clone(),
                _ => "".to_owned(),
            };
            return Err(
                VideoError::UnsupportedFormat(
                    concat2("unsupported SPA video format ", name.as_str()),
                ),
            );
        },
    };
    let (num, den): (u32, u32) = if info.framerate_num == 0 || info.framerate_den == 0 {
        (30, 1)
    } else {
        (info.framerate_num, info.framerate_den)
    };
    VideoSpec::new(info.width, info.height, num, den, format)
}

/// Turns a format parameter into a spec, where it could be read.
pub fn parse_format_param(info: Option<VideoInfo>) -> (r: Result<VideoSpec, VideoError>)
    ensures
        match info {
            None => r matches Err(VideoError::UnsupportedFormat(text)) && text@
                == "unparseable SPA video format"@,
            Some(info) => match negotiated(info) {
                Ok(spec) => r == Ok::<VideoSpec, VideoError>(spec),
                Err(text) => r matches Err(e) && video_error_text(e) == text,
            },
        },
{
    match info {
        None => Err(VideoError::UnsupportedFormat("unparseable SPA video format".to_owned())),
        Some(info) => video_info_to_spec(&info),
    }
}

/// The formats that a capture offers: those asked for, or all where none are.
pub fn offered_formats(formats: &Vec<VideoPixelFormat>) -> (r: Vec<SpaVideoFormat>)
    ensures
        ({
            let chosen = if formats@.len() == 0 {
                supported_formats()
            } else {
                formats@
            };
            &&& r@.len() == chosen.len()
            &&& r@.len() > 0
            &&& forall|i: int| 0 <= i < r@.len() ==> #[trigger] r@[i] == spa_of(chosen[i])
        }),
{
    let all = supported_pixel_formats();
    let chosen = if formats.len() == 0 {
        &all
    } else {
        formats
    };
    let mut offered: Vec<SpaVideoFormat> = Vec::new();
    let mut i: usize = 0;
    while i < chosen.len()
        invariant
            i <= chosen.len(),
            offered@.len() == i,
            forall|j: int| 0 <= j < i ==> #[trigger] offered@[j] == spa_of(chosen@[j]),
        decreases chosen.len() - i,
    {
        offered.push(pixel_to_spa(chosen[i]));
        i = i + 1;
    }
    offered
}

/// The pool of buffers that a stream offers.
#[derive(Clone, Copy, Debug, PartialEq, Eq, Structural)]
pub struct BuffersOffer {
    pub min_size: u32,
    pub default_size: u32,
    pub max_size: u32,
    pub count: u32,
}

impl BuffersOffer {
    /// Why a pool cannot be offered.
    pub open spec fn flaw(self) -> Option<Seq<char>> {
        if self.min_size == 0 || self.default_size == 0 || self.max_size == 0 || self.count == 0 {
            Some("video buffer parameters must be nonzero"@)
        } else if !(self.min_size <= self.default_size && self.default_size <= self.max_size) {
            Some("video buffer sizes must order min <= default <= max"@)
        } else if self.max_size > MAX_FRAME_BYTES {
            Some("video buffer max exceeds the frame limit"@)
        } else {
            None
        }
    }
}

/// Checks a pool of buffers.
pub fn plan_buffers(min_size: u32, default_size: u32, max_size: u32, count: u32) -> (r: Result<
    BuffersOffer,
    BackendError,
>)
    ensures
        ({
            let offer = BuffersOffer { min_size, default_size, max_size, count };
            match offer.flaw() {
                None => r == Ok::<BuffersOffer, BackendError>(offer),
                Some(text) => r matches Err(e) && e@ == BackendErrorView::Native(text),
            }
        }),
{
    if min_size == 0 || default_size == 0 || max_size == 0 || count == 0 {
        return Err(BackendError::native("video buffer parameters must be nonzero"));
    }
    if !(min_size <= default_size && default_size <= max_size) {
        return Err(BackendError::native("video buffer sizes must order min <= default <= max"));
    }
    if max_size as usize > MAX_FRAME_BYTES {
        return Err(BackendError::native("video buffer max exceeds the frame limit"));
    }
    Ok(BuffersOffer { min_size, default_size, max_size, count })
}

/// The pool of a capture: any size up to the largest frame.
pub fn plan_capture_buffers() -> (r: Result<BuffersOffer, BackendError>)
    ensures
        r == Ok::<BuffersOffer, BackendError>(
            BuffersOffer {
                min_size: 1,
                default_size: 8_294_400,
                max_size: 132_710_400,
                count: 4,
            },
        ),
{
    plan_buffers(1, 1920 * 1080 * 4, MAX_FRAME_BYTES as u32, 4)
}

/// The error for an output that cannot be offered.
pub open spec fn invalid_output(text: Seq<char>) -> BackendErrorView {
    BackendErrorView::Native("invalid video output spec: "@ + text)
}

/// The pool of an output: buffers of just the size of its frames.
pub fn plan_output_buffers(spec: &VideoSpec) -> (r: Result<BuffersOffer, BackendError>)
    ensures
        match spec.flaw() {
            None => r == Ok::<BuffersOffer, BackendError>(
                BuffersOffer {
                    min_size: spec.bytes() as u32,
                    default_size: spec.bytes() as u32,
                    max_size: spec.bytes() as u32,
                    count: 4,
                },
            ),
            Some(text) => r matches Err(e) && e@ == invalid_output(text),
        },
{
    match spec.frame_bytes() {
        Err(error) => Err(
            BackendError::Native(concat2("invalid video output spec: ", error.to_text().as_str())),
        ),
        Ok(bytes) => {
            let size: u32 = bytes as u32;
            plan_buffers(size, size, size, 4)
        },
    }
}

/// Checks that an output can offer a spec.
pub fn check_fixed_format(spec: &VideoSpec) -> (r: Result<SpaVideoFormat, BackendError>)
    ensures
        match spec.flaw() {
            None => r == Ok::<SpaVideoFormat, BackendError>(spa_of(spec.format)),
            Some(text) => r matches Err(e) && e@ == invalid_output(text),
        },
{
    match spec.validate() {
        Err(error) => Err(
            BackendError::Native(concat2("invalid video output spec: ", error.to_text().as_str())),
        ),
        Ok(()) => Ok(pixel_to_spa(spec.format)),
    }
}

/// Two formats of the server that are known are never the same pixel format.
pub proof fn law_formats_are_told_apart(a: VideoPixelFormat, b: VideoPixelFormat)
    ensures
        spa_of(a) == spa_of(b) ==> a == b,
        spa_of(VideoPixelFormat::Rgbx) == SpaVideoFormat::RGBx,
        spa_of(VideoPixelFormat::Bgrx) == SpaVideoFormat::BGRx,
        spa_of(VideoPixelFormat::Rgba) == SpaVideoFormat::RGBA,
        spa_of(VideoPixelFormat::Nv12) == SpaVideoFormat::NV12,
        spa_of(VideoPixelFormat::I420) == SpaVideoFormat::I420,
{
}

/// A frame takes four bytes for each pixel, or one and two for each square of
/// four where the colours are kept apart.
pub proof fn law_frame_sizes(spec: VideoSpec)
    ensures
        spec.format == VideoPixelFormat::Rgba || spec.format == VideoPixelFormat::Rgbx
            || spec.format == VideoPixelFormat::Bgrx ==> spec.bytes() == 4 * (spec.width
            * spec.height),
        (spec.format == VideoPixelFormat::Nv12 || spec.format == VideoPixelFormat::I420)
            && spec.width % 2 == 0 && spec.height % 2 == 0 ==> 2 * spec.bytes() == 3 * (spec.width
            * spec.height),
{
    let w = spec.width as int;
    let h = spec.height as int;
    if w % 2 == 0 && h % 2 == 0 {
        assert((w + 1) / 2 == w / 2);
        assert((h + 1) / 2 == h / 2);
        let a = w / 2;
        let b = h / 2;
        assert(w == 2 * a && h == 2 * b);
        assert(w * h == 4 * (a * b)) by (nonlinear_arith)
            requires
                w == 2 * a,
                h == 2 * b,
        ;
    }
    assert(w * h * 4 == 4 * (w * h)) by (nonlinear_arith);
}

/// A format is valid exactly where its size is neither nothing nor over the
/// limit, and its rate neither.
pub proof fn law_valid_formats(spec: VideoSpec)
    ensures
        spec.valid() <==> {
            &&& 1 <= spec.width <= MAX_VIDEO_WIDTH
            &&& 1 <= spec.height <= MAX_VIDEO_HEIGHT
            &&& spec.framerate_num >= 1
            &&& spec.framerate_den >= 1
            &&& spec.framerate_num <= MAX_VIDEO_FPS * spec.framerate_den
        },
{
}

/// What is negotiated has the size and the pixel format that were announced,
/// and the announced rate, or thirty frames a second where none was.
pub proof fn law_negotiated_formats(info: VideoInfo)
    ensures
        match negotiated(info) {
            Ok(spec) => {
                &&& spec.width == info.width
                &&& spec.height == info.height
                &&& spa_of(spec.format) == info.format
                &&& info.framerate_num != 0 && info.framerate_den != 0 ==> spec.framerate_num
                    == info.framerate_num && spec.framerate_den == info.framerate_den
                &&& info.framerate_num == 0 || info.framerate_den == 0 ==> spec.framerate_num == 30
                    && spec.framerate_den == 1
                &&& spec.valid()
            },
            Err(_) => info.format is Other || info.width == 0 || info.height == 0 || info.width
                > MAX_VIDEO_WIDTH || info.height > MAX_VIDEO_HEIGHT || info.framerate_num
                > MAX_VIDEO_FPS * info.framerate_den,
        },
{
}

/// Buffers are offered exactly where their sizes are in order and within the
/// limit and there is at least one.
pub proof fn law_offered_buffers(offer: BuffersOffer)
    ensures
        offer.flaw() is None <==> {
            &&& 1 <= offer.min_size <= offer.default_size
            &&& offer.default_size <= offer.max_size <= MAX_FRAME_BYTES
            &&& offer.count >= 1
        },
{
}

} // verus!
