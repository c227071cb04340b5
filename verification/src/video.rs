//! Decoded pictures: when they are shown, and in which pixel layout they go to
//! the renderer.

use vstd::prelude::*;
use vstd::slice::{slice_subrange, slice_to_vec};

use crate::pixel::PixelFormat;
use crate::timing;
use crate::timing::{product, Seconds, TimeBase};

verus! {

/// A pixel layout that a decoder may produce.
#[derive(Debug, Clone, Copy, PartialEq, Eq, Structural)]
pub enum SourceFormat {
    Yuv420p,
    Nv12,
    P010le,
    P010be,
    Yuv420p10le,
    Yuv420p10be,
    Yuv422p10le,
    Yuv422p10be,
    Yuv444p10le,
    Yuv444p10be,
    /// A picture on the GPU.
    D3d11,
    /// A picture on the GPU.
    Dxva2Vld,
    /// Any other layout, by its number: the bits of its samples, and whether its
    /// components lie in planes of their own.
    Other { id: i32, depth: u32, planar: bool },
}

/// A decoded picture, ready for the renderer.
pub struct DecodedVideoFrame {
    pub pts_secs: Seconds,
    pub width: u32,
    pub height: u32,
    pub format: PixelFormat,
    pub planes: Vec<Vec<u8>>,
    /// Bytes from the start of a line to the start of the next, for each plane.
    pub strides: Vec<usize>,
}

/// A picture as the decoder gives it.
#[derive(Debug, Clone, Copy, PartialEq, Eq, Structural)]
pub struct RawVideo {
    pub pts: Option<i64>,
    pub format: SourceFormat,
    pub width: u32,
    pub height: u32,
}

/// What the decoder answers when asked for a picture.
#[derive(Debug, Clone, Copy, PartialEq, Eq, Structural)]
pub enum VideoReply {
    Frame(RawVideo),
    /// It needs more packets first.
    Again,
    Failed,
}

/// The decoder failed.
#[derive(Debug, Clone, Copy, PartialEq, Eq, Structural)]
pub struct VideoError;

/// What to do with a picture next.
#[derive(Debug, Clone, Copy, PartialEq, Eq, Structural)]
pub enum VideoStep {
    /// No picture yet.
    Nothing,
    /// Bring the picture from the GPU, then tell [`VideoDecoder::downloaded`].
    Download(Seconds),
    /// Convert the picture, with a new scaler if told so, then hand it over.
    Convert { pts: Seconds, target: SourceFormat, rebuild: bool },
    /// Hand the picture over as it is.
    Keep(Seconds),
}

/// What a scaler was made for.
#[derive(Debug, Clone, Copy, PartialEq, Eq, Structural)]
pub struct ScalerSetup {
    pub source: SourceFormat,
    pub width: u32,
    pub height: u32,
    pub target: SourceFormat,
}

/// The state of the video decoder.
#[derive(Debug, Clone, Copy, PartialEq, Eq, Structural)]
pub struct VideoDecoder {
    pub time_base: TimeBase,
    /// Where the content starts on the container's axis.
    pub start_offset: Seconds,
    /// The scaler that stands.
    pub scaler: Option<ScalerSetup>,
}

/// The buffers of a picture in system memory.
pub struct FrameBuffers<'a> {
    pub format: SourceFormat,
    pub width: u32,
    pub height: u32,
    pub planes: Vec<&'a [u8]>,
    pub strides: Vec<usize>,
}

impl SourceFormat {
    /// The layout in which a picture of this one goes to the renderer: what
    /// the GPU can show stays as it is, planar ten bits stay ten bits, and
    /// everything else becomes planar 4:2:0 of eight bits.
    pub open spec fn target(self) -> SourceFormat {
        match self {
            SourceFormat::Yuv420p | SourceFormat::Nv12 | SourceFormat::P010le => self,
            SourceFormat::Yuv420p10le
            | SourceFormat::Yuv420p10be
            | SourceFormat::Yuv422p10le
            | SourceFormat::Yuv422p10be
            | SourceFormat::Yuv444p10le
            | SourceFormat::Yuv444p10be
            | SourceFormat::P010be => SourceFormat::Yuv420p10le,
            SourceFormat::Other { id: _, depth, planar } => if depth == 10 && planar {
                SourceFormat::Yuv420p10le
            } else {
                SourceFormat::Yuv420p
            },
            _ => SourceFormat::Yuv420p,
        }
    }

    /// The picture is on the GPU.
    pub open spec fn on_gpu(self) -> bool {
        self == SourceFormat::D3d11 || self == SourceFormat::Dxva2Vld
    }

    /// The name of this layout for the renderer.
    pub open spec fn pixel_format(self) -> PixelFormat {
        match self {
            SourceFormat::Yuv420p => PixelFormat::Yuv420p,
            SourceFormat::Yuv420p10le => PixelFormat::Yuv420p10le,
            SourceFormat::Nv12 => PixelFormat::Nv12,
            SourceFormat::P010le => PixelFormat::P010Le,
            _ => PixelFormat::Rgba,
        }
    }

    /// How many planes go to the renderer.
    pub open spec fn plane_count(self) -> int {
        match self {
            SourceFormat::Yuv420p | SourceFormat::Yuv420p10le => 3,
            SourceFormat::Nv12 | SourceFormat::P010le => 2,
            _ => 1,
        }
    }
}

/// The layout in which a picture goes to the renderer.
pub fn desired_target(src: SourceFormat) -> (r: SourceFormat)
    ensures
        r == src.target(),
{
    match src {
        SourceFormat::Yuv420p | SourceFormat::Nv12 | SourceFormat::P010le => src,
        SourceFormat::Yuv420p10le
        | SourceFormat::Yuv420p10be
        | SourceFormat::Yuv422p10le
        | SourceFormat::Yuv422p10be
        | SourceFormat::Yuv444p10le
        | SourceFormat::Yuv444p10be
        | SourceFormat::P010be => SourceFormat::Yuv420p10le,
        SourceFormat::Other { id: _, depth, planar } => if depth == 10 && planar {
            SourceFormat::Yuv420p10le
        } else {
            SourceFormat::Yuv420p
        },
        _ => SourceFormat::Yuv420p,
    }
}

/// Whether the picture is on the GPU.
pub fn is_hw_format(format: SourceFormat) -> (r: bool)
    ensures
        r == format.on_gpu(),
{
    matches!(format, SourceFormat::D3d11 | SourceFormat::Dxva2Vld)
}

impl<'a> FrameBuffers<'a> {
    /// The stride of plane `i`; the second chroma plane has that of the first.
    pub open spec fn stride_of(self, i: int) -> usize {
        if i == 0 {
            self.strides@[0]
        } else {
            self.strides@[1]
        }
    }

    /// How many bytes of plane `i` make the picture: chroma has half as many
    /// lines as luma.
    pub open spec fn plane_len(self, i: int) -> int {
        if i == 0 {
            self.stride_of(0) * self.height
        } else {
            self.stride_of(i) * (self.height / 2)
        }
    }

    /// The buffers hold the planes that their layout needs.
    pub open spec fn complete(self) -> bool {
        &&& self.planes@.len() >= self.format.plane_count()
        &&& self.strides@.len() >= (if self.format.plane_count() > 1 {
            2int
        } else {
            1
        })
        &&& forall|i: int|
            0 <= i < self.format.plane_count() ==> self.plane_len(i) <= (
            #[trigger] self.planes@[i])@.len()
    }
}

impl<'a> FrameBuffers<'a> {
    /// Whether the buffers hold the planes that their layout needs.
    pub fn is_complete(&self) -> (r: bool)
        ensures
            r == self.complete(),
    {
        let count: usize = match self.format {
            SourceFormat::Yuv420p | SourceFormat::Yuv420p10le => 3,
            SourceFormat::Nv12 | SourceFormat::P010le => 2,
            _ => 1,
        };
        let strides: usize = if count > 1 {
            2
        } else {
            1
        };
        if self.planes.len() < count || self.strides.len() < strides {
            return false;
        }
        for i in 0..count
            invariant
                count == self.format.plane_count(),
                self.planes@.len() >= count,
                self.strides@.len() >= (if count > 1 {
                    2int
                } else {
                    1
                }),
                forall|k: int|
                    0 <= k < i ==> self.plane_len(k) <= (#[trigger] self.planes@[k])@.len(),
        {
            let needed: u128 = if i == 0 {
                product(self.strides[0], self.height as usize)
            } else {
                product(self.strides[1], (self.height / 2) as usize)
            };
            assert(needed == self.plane_len(i as int));
            if needed > self.planes[i].len() as u128 {
                assert(self.plane_len(i as int) > self.planes@[i as int]@.len());
                return false;
            }
        }
        true
    }
}

fn plane_prefix(data: &[u8], stride: usize, lines: u32) -> (r: Vec<u8>)
    requires
        stride * lines <= data@.len(),
    ensures
        r@ == data@.take(stride * lines),
{
    let len: usize = data.len();
    assert(stride * lines >= 0) by (nonlinear_arith);
    let n: usize = stride * lines as usize;
    let part = slice_subrange(data, 0, n);
    assert(part@ =~= data@.take(n as int));
    slice_to_vec(part)
}

/// The planes of a picture, their strides, and the layout they make.
pub fn extract_planes(frame: &FrameBuffers) -> (r: (Vec<Vec<u8>>, Vec<usize>, PixelFormat))
    requires
        frame.complete(),
    ensures
        r.2 == frame.format.pixel_format(),
        r.0@.len() == frame.format.plane_count(),
        r.1@.len() == frame.format.plane_count(),
        forall|i: int|
            0 <= i < frame.format.plane_count() ==> (#[trigger] r.0@[i])@ == frame.planes@[i]@.take(
                frame.plane_len(i),
            ),
        forall|i: int|
            0 <= i < frame.format.plane_count() ==> #[trigger] r.1@[i] == frame.stride_of(i),
{
    let h: u32 = frame.height;
    let mut planes: Vec<Vec<u8>> = Vec::new();
    let mut strides: Vec<usize> = Vec::new();
    assert(frame.planes@[0]@.len() >= frame.plane_len(0));
    planes.push(plane_prefix(frame.planes[0], frame.strides[0], h));
    strides.push(frame.strides[0]);
    let format = match frame.format {
        SourceFormat::Yuv420p => PixelFormat::Yuv420p,
        SourceFormat::Yuv420p10le => PixelFormat::Yuv420p10le,
        SourceFormat::Nv12 => PixelFormat::Nv12,
        SourceFormat::P010le => PixelFormat::P010Le,
        _ => PixelFormat::Rgba,
    };
    if format != PixelFormat::Rgba {
        assert(frame.planes@[1]@.len() >= frame.plane_len(1));
        planes.push(plane_prefix(frame.planes[1], frame.strides[1], h / 2));
        strides.push(frame.strides[1]);
    }
    if format == PixelFormat::Yuv420p || format == PixelFormat::Yuv420p10le {
        assert(frame.planes@[2]@.len() >= frame.plane_len(2));
        planes.push(plane_prefix(frame.planes[2], frame.strides[1], h / 2));
        strides.push(frame.strides[1]);
    }
    (planes, strides, format)
}

impl VideoDecoder {
    /// When a picture is shown, counted from the start of the content.
    pub open spec fn show_time(self, pts: Option<i64>) -> int {
        match pts {
            Some(p) => timing::saturated(
                self.time_base.nanos(p as int) - self.start_offset.nanos,
            ),
            None => 0,
        }
    }

    /// What to do with a picture in system memory, to be shown at `pts`.
    pub open spec fn plan(
        self,
        pts: Seconds,
        format: SourceFormat,
        width: u32,
        height: u32,
    ) -> VideoStep {
        let target = format.target();
        if format == target {
            VideoStep::Keep(pts)
        } else {
            VideoStep::Convert {
                pts,
                target,
                rebuild: self.scaler != Some(ScalerSetup { source: format, width, height, target }),
            }
        }
    }

    /// A decoder of pictures whose timestamps count `time_base`.
    pub fn new(time_base: TimeBase) -> (r: VideoDecoder)
        ensures
            r == (VideoDecoder { time_base, start_offset: Seconds { nanos: 0 }, scaler: None }),
    {
        VideoDecoder { time_base, start_offset: Seconds { nanos: 0 }, scaler: None }
    }

    /// Says where the content starts on the container's axis.
    pub fn set_start_offset(&mut self, offset: Seconds)
        ensures
            *final(self) == (VideoDecoder { start_offset: offset, ..*old(self) }),
    {
        self.start_offset = offset;
    }

    fn decide(&self, pts: Seconds, format: SourceFormat, width: u32, height: u32) -> (r: VideoStep)
        ensures
            r == self.plan(pts, format, width, height),
    {
        let target = desired_target(format);
        if format == target {
            return VideoStep::Keep(pts);
        }
        let rebuild = match self.scaler {
            Some(s) => s.source != format || s.width != width || s.height != height || s.target
                != target,
            None => true,
        };
        VideoStep::Convert { pts, target, rebuild }
    }

    /// Takes in what the decoder answers.
    pub fn receive_frame(&self, reply: VideoReply) -> (r: Result<VideoStep, VideoError>)
        ensures
            r == (match reply {
                VideoReply::Again => Ok::<VideoStep, VideoError>(VideoStep::Nothing),
                VideoReply::Failed => Err::<VideoStep, VideoError>(VideoError),
                VideoReply::Frame(raw) => Ok(
                    ({
                        let pts = Seconds { nanos: self.show_time(raw.pts) as i128 };
                        if raw.format.on_gpu() {
                            VideoStep::Download(pts)
                        } else {
                            self.plan(pts, raw.format, raw.width, raw.height)
                        }
                    }),
                ),
            }),
    {
        match reply {
            VideoReply::Again => Ok(VideoStep::Nothing),
            VideoReply::Failed => Err(VideoError),
            VideoReply::Frame(raw) => {
                let pts = match raw.pts {
                    Some(p) => self.time_base.seconds(p).minus(self.start_offset),
                    None => Seconds { nanos: 0 },
                };
                if is_hw_format(raw.format) {
                    Ok(VideoStep::Download(pts))
                } else {
                    Ok(self.decide(pts, raw.format, raw.width, raw.height))
                }
            },
        }
    }

    /// Takes in what became of bringing a picture from the GPU: its layout and
    /// size in system memory, or nothing, and then the picture is given up.
    pub fn downloaded(&self, pts: Seconds, result: Option<(SourceFormat, u32, u32)>) -> (r:
        VideoStep)
        ensures
            r == (match result {
                Some(p) => self.plan(pts, p.0, p.1, p.2),
                None => VideoStep::Nothing,
            }),
    {
        match result {
            Some(p) => self.decide(pts, p.0, p.1, p.2),
            None => VideoStep::Nothing,
        }
    }

    /// Takes in that a scaler for pictures of this layout and size was made.
    pub fn scaler_built(&mut self, source: SourceFormat, width: u32, height: u32)
        ensures
            *final(self) == (VideoDecoder {
                scaler: Some(ScalerSetup { source, width, height, target: source.target() }),
                ..*old(self)
            }),
    {
        self.scaler = Some(ScalerSetup { source, width, height, target: desired_target(source) });
    }

    /// The picture to deliver, to be shown at `pts`.
    pub fn finish_frame(&self, pts: Seconds, frame: &FrameBuffers) -> (r: DecodedVideoFrame)
        requires
            frame.complete(),
        ensures
            r.pts_secs == pts,
            r.width == frame.width,
            r.height == frame.height,
            r.format == frame.format.pixel_format(),
            r.planes@.len() == frame.format.plane_count(),
            r.strides@.len() == frame.format.plane_count(),
            forall|i: int|
                0 <= i < frame.format.plane_count() ==> (#[trigger] r.planes@[i])@
                    == frame.planes@[i]@.take(frame.plane_len(i)),
            forall|i: int|
                0 <= i < frame.format.plane_count() ==> #[trigger] r.strides@[i]
                    == frame.stride_of(i),
    {
        let (planes, strides, format) = extract_planes(frame);
        DecodedVideoFrame {
            pts_secs: pts,
            width: frame.width,
            height: frame.height,
            format,
            planes,
            strides,
        }
    }
}

/// A picture is converted at most once: what comes out of a conversion needs no
/// other, and the renderer has a name for it.
pub proof fn law_conversion_settles(format: SourceFormat)
    ensures
        format.target().target() == format.target(),
        format.target().pixel_format() != PixelFormat::Rgba,
        !format.target().on_gpu(),
{
}

/// What hardware decoders deliver, and plain 8-bit pictures, go to the renderer
/// without any conversion.
pub proof fn law_native_formats_are_kept(d: VideoDecoder, pts: Seconds, width: u32, height: u32)
    ensures
        d.plan(pts, SourceFormat::Nv12, width, height) == VideoStep::Keep(pts),
        d.plan(pts, SourceFormat::P010le, width, height) == VideoStep::Keep(pts),
        d.plan(pts, SourceFormat::Yuv420p, width, height) == VideoStep::Keep(pts),
{
}

/// A stream whose layout and size do not change needs one scaler; a change of
/// either needs a new one.
pub proof fn law_scaler_follows_the_stream(
    d: VideoDecoder,
    pts: Seconds,
    format: SourceFormat,
    width: u32,
    height: u32,
    other: SourceFormat,
    other_width: u32,
    other_height: u32,
)
    requires
        format != format.target(),
        d.scaler == Some(ScalerSetup { source: other, width: other_width, height: other_height, target: other.target() }),
    ensures
        d.plan(pts, format, width, height) == (VideoStep::Convert {
            pts,
            target: format.target(),
            rebuild: !(format == other && width == other_width && height == other_height),
        }),
{
}

/// A picture is shown when its timestamp says, counted from the start of the
/// content, to the nanosecond before; one without a timestamp is shown at the
/// start.
pub proof fn law_pictures_are_shown_at_their_time(d: VideoDecoder, p: i64)
    requires
        d.time_base.den >= 1,
        i128::MIN <= d.time_base.nanos(p as int) - d.start_offset.nanos <= i128::MAX,
    ensures
        d.show_time(None) == 0,
        ({
            let t = d.show_time(Some(p));
            let late = p * d.time_base.num * 1_000_000_000 - d.start_offset.nanos * d.time_base.den;
            t * d.time_base.den <= late < (t + 1) * d.time_base.den
        }),
{
    timing::law_ticks_are_seconds(d.time_base, p as int);
    let den = d.time_base.den as int;
    let s = d.start_offset.nanos as int;
    let q = d.time_base.nanos(p as int);
    assert((q - s) * den == q * den - s * den) by (nonlinear_arith);
    assert((q - s + 1) * den == (q + 1) * den - s * den) by (nonlinear_arith);
}

/// What the GPU can show is never converted; planar ten-bit pictures, and those
/// of the other byte order, stay ten-bit; everything else becomes planar
/// eight-bit. Nothing else ever reaches the renderer.
pub proof fn law_conversions_keep_ten_bits(source: SourceFormat)
    ensures
        source is Yuv420p || source is Nv12 || source is P010le ==> source.target() == source,
        source is Yuv420p10le || source is Yuv420p10be || source is Yuv422p10le || source
            is Yuv422p10be || source is Yuv444p10le || source is Yuv444p10be || source
            is P010be ==> source.target() is Yuv420p10le,
        source matches SourceFormat::Other { id, depth, planar } ==> (source.target() is Yuv420p10le
            <==> depth == 10 && planar),
        source matches SourceFormat::Other { id, depth, planar } ==> (source.target() is Yuv420p
            <==> !(depth == 10 && planar)),
        source is D3d11 || source is Dxva2Vld ==> source.target() is Yuv420p,
        source.on_gpu() <==> source is D3d11 || source is Dxva2Vld,
{
}

/// A picture in system memory is kept exactly when it is in its target layout,
/// and otherwise converted to it; a scaler serves again exactly when it was made
/// for this layout, this size and this target.
pub proof fn law_scalers_serve_their_own(
    d: VideoDecoder,
    pts: Seconds,
    source: SourceFormat,
    width: u32,
    height: u32,
)
    ensures
        ({
            let shown = source is Yuv420p || source is Nv12 || source is P010le || source
                is Yuv420p10le;
            match d.plan(pts, source, width, height) {
                VideoStep::Keep(t) => shown && t == pts,
                VideoStep::Convert { pts: t, target, rebuild } => {
                    &&& !shown && t == pts && target == source.target() && target != source
                    &&& !rebuild <==> (d.scaler matches Some(s) && s.source == source && s.width
                        == width && s.height == height && s.target == target)
                },
                _ => false,
            }
        }),
{
}

/// The renderer is told the layout by its own name, with as many planes as it
/// has: three for planar, two for semi-planar pictures.
pub proof fn law_layouts_keep_their_name(source: SourceFormat)
    ensures
        source is Yuv420p <==> source.pixel_format() is Yuv420p,
        source is Yuv420p10le <==> source.pixel_format() is Yuv420p10le,
        source is Nv12 <==> source.pixel_format() is Nv12,
        source is P010le <==> source.pixel_format() is P010Le,
        source is Yuv420p || source is Yuv420p10le ==> source.plane_count() == 3,
        source is Nv12 || source is P010le ==> source.plane_count() == 2,
        !(source is Yuv420p || source is Yuv420p10le || source is Nv12 || source is P010le)
            ==> source.plane_count() == 1 && source.pixel_format() is Rgba,
{
}

/// A plane that is delivered holds every line of the picture: all lines of luma,
/// half as many of chroma, each with its stride.
pub proof fn law_planes_hold_every_line<'a>(frame: FrameBuffers<'a>, i: int, row: int, col: int)
    requires
        frame.complete(),
        0 <= i < frame.format.plane_count(),
        0 <= row,
        i == 0 ==> row < frame.height,
        i > 0 ==> row < frame.height / 2,
        0 <= col < frame.stride_of(i),
    ensures
        frame.stride_of(i) == (if i == 0 {
            frame.strides@[0]
        } else {
            frame.strides@[1]
        }),
        frame.plane_len(i) == frame.stride_of(i) * (if i == 0 {
            frame.height
        } else {
            frame.height / 2
        }),
        0 <= row * frame.stride_of(i) + col < frame.plane_len(i),
        frame.plane_len(i) <= frame.planes@[i]@.len(),
        frame.planes@[i]@.take(frame.plane_len(i))[row * frame.stride_of(i) + col]
            == frame.planes@[i]@[row * frame.stride_of(i) + col],
{
    let s = frame.stride_of(i) as int;
    let n: int = if i == 0 {
        frame.height as int
    } else {
        (frame.height / 2) as int
    };
    assert(0 <= row * s + col < s * n) by (nonlinear_arith)
        requires
            0 <= row < n,
            0 <= col < s,
    ;
    assert(frame.planes@[i]@.len() >= frame.plane_len(i));
}

} // verus!
