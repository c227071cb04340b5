//! What happens when the picture is painted: the direct way for standard
//! pictures, two passes with tone mapping for HDR ones, and the capture of what
//! is on the screen.

use vstd::prelude::*;

use crate::color::ColorUniforms;
use crate::timing::{product, Ratio};
use crate::video::DecodedVideoFrame;
use crate::video_renderer::{FrameUpload, VideoRenderer};

verus! {

/// A request for a picture of the screen, and the last picture taken.
pub struct SnapshotState {
    pub requested: bool,
    /// Width, height, and red, green, blue, alpha of each pixel.
    pub result: Option<(u32, u32, Vec<u8>)>,
}

/// The texture between the two passes of an HDR picture.
#[derive(Debug, Clone, Copy, PartialEq, Eq)]
pub struct HdrOffscreen {
    /// The size that the texture was made for, if there is one.
    pub size: Option<(u32, u32)>,
    /// The texture holds the picture as it is to be shown.
    pub current: bool,
}

/// The parameters of tone mapping.
#[derive(Debug, Clone, Copy, PartialEq, Eq, Structural)]
pub struct ToneMapParams {
    pub mode: u32,
    /// The brightest light of the content, in nits.
    pub max_luminance: Ratio,
    pub exposure: Ratio,
    /// 1 is PQ, 2 is HLG.
    pub transfer: u32,
}

/// How the stream that is painted has to be shown.
#[derive(Debug, Clone, Copy, PartialEq, Eq, Structural)]
pub struct VideoPaintCallback {
    /// 0 is BT.601, 1 is BT.709, 2 is BT.2020.
    pub color_space: u32,
    /// Samples use the full range.
    pub full_range: bool,
    /// The transfer function of the stream: 0 is standard, 1 is PQ, 2 is HLG.
    /// The number of bits says nothing of it.
    pub transfer: u32,
    pub tonemap_mode: u32,
    /// The brightest light of the content, in nits.
    pub max_luminance: Ratio,
}

/// What painting asks of the GPU before the picture is drawn, in this order.
pub struct Prepared {
    /// The constants of the conversion, where the stream changes them.
    pub uniforms: Option<ColorUniforms>,
    /// The new picture, if there is one.
    pub upload: Option<FrameUpload>,
    /// The passes, for an HDR picture.
    pub passes: Option<HdrPass>,
}

/// The passes of an HDR picture: conversion into a texture, then tone mapping.
#[derive(Debug, Clone, Copy, PartialEq, Eq)]
pub struct HdrPass {
    /// The texture to make, where there is none of the right size.
    pub texture: Option<(u32, u32)>,
    /// The picture has to be converted into the texture. The conversion shades
    /// every pixel of the source: it is not made again for a mere redraw.
    pub convert: bool,
    pub params: ToneMapParams,
}

/// What draws the picture on the screen.
#[derive(Debug, Clone, Copy, PartialEq, Eq, Structural)]
pub enum PaintSource {
    /// The renderer, from luma and chroma.
    Renderer,
    /// Tone mapping, from the texture between the passes.
    ToneMapper,
}

/// The bytes of a capture while the GPU hands it over: lines start at multiples
/// of 256 bytes.
#[derive(Debug, Clone, Copy, PartialEq, Eq, Structural)]
pub struct CaptureLayout {
    /// Bytes of a line that are pixels.
    pub unpadded: usize,
    /// Bytes from a line to the next.
    pub padded: usize,
    /// Bytes in all.
    pub size: usize,
}

/// How a capture is made.
#[derive(Debug, Clone, Copy, PartialEq, Eq)]
pub struct CapturePlan {
    pub layout: CaptureLayout,
    /// The passes of an HDR picture; a standard one is drawn directly.
    pub passes: Option<HdrPass>,
}

impl HdrOffscreen {
    /// The texture to make for pictures of a size: none where the one that
    /// stands has it.
    pub open spec fn missing(self, w: u32, h: u32) -> Option<(u32, u32)> {
        if self.size == Some((w, h)) {
            None
        } else {
            Some(
                (
                    if w == 0 {
                        1
                    } else {
                        w
                    },
                    if h == 0 {
                        1
                    } else {
                        h
                    },
                ),
            )
        }
    }

    /// No texture yet.
    pub fn new() -> (r: HdrOffscreen)
        ensures
            r.size is None,
            !r.current,
    {
        HdrOffscreen { size: None, current: false }
    }

    /// Asks for the texture for pictures of a size. The size of the texture to
    /// make, if one has to be made.
    pub fn ensure(&mut self, w: u32, h: u32) -> (r: Option<(u32, u32)>)
        ensures
            r == old(self).missing(w, h),
            final(self).size == Some((w, h)),
            final(self).current == (old(self).current && r is None),
    {
        let current = match self.size {
            Some(s) => s.0 == w && s.1 == h,
            None => false,
        };
        if current {
            return None;
        }
        self.size = Some((w, h));
        self.current = false;
        let tw: u32 = if w == 0 {
            1
        } else {
            w
        };
        let th: u32 = if h == 0 {
            1
        } else {
            h
        };
        Some((tw, th))
    }
}

impl VideoPaintCallback {
    /// The parameters of tone mapping: the content is never darker than one
    /// nit, and exposure stays as it is.
    pub open spec fn params(self) -> ToneMapParams {
        ToneMapParams {
            mode: self.tonemap_mode,
            max_luminance: if self.max_luminance.num < self.max_luminance.den {
                Ratio { num: 1, den: 1 }
            } else {
                self.max_luminance
            },
            exposure: Ratio { num: 1, den: 1 },
            transfer: self.transfer,
        }
    }

    /// The passes of an HDR picture of a size. There are none for a standard
    /// stream, nor before the first picture.
    pub open spec fn passes(self, offscreen: HdrOffscreen, size: Option<(u32, u32)>) -> Option<
        HdrPass,
    > {
        match size {
            Some(s) if self.transfer != 0 => Some(
                HdrPass {
                    texture: offscreen.missing(s.0, s.1),
                    convert: !offscreen.current || offscreen.missing(s.0, s.1) is Some,
                    params: self.params(),
                },
            ),
            _ => None,
        }
    }

    /// What becomes of the texture between the passes.
    pub open spec fn after_passes(
        self,
        offscreen: HdrOffscreen,
        size: Option<(u32, u32)>,
    ) -> HdrOffscreen {
        if self.passes(offscreen, size) is Some {
            HdrOffscreen { size, current: true }
        } else {
            offscreen
        }
    }

    fn make_params(&self) -> (r: ToneMapParams)
        ensures
            r == self.params(),
    {
        let max_luminance = if self.max_luminance.num < self.max_luminance.den {
            Ratio { num: 1, den: 1 }
        } else {
            self.max_luminance
        };
        ToneMapParams {
            mode: self.tonemap_mode,
            max_luminance,
            exposure: Ratio { num: 1, den: 1 },
            transfer: self.transfer,
        }
    }

    fn hdr_pass(&self, offscreen: &mut HdrOffscreen, size: Option<(u32, u32)>) -> (r: Option<
        HdrPass,
    >)
        ensures
            r == self.passes(*old(offscreen), size),
            *final(offscreen) == self.after_passes(*old(offscreen), size),
    {
        if self.transfer == 0 {
            return None;
        }
        match size {
            Some(s) => {
                let texture = offscreen.ensure(s.0, s.1);
                let convert = !offscreen.current;
                offscreen.current = true;
                Some(HdrPass { texture, convert, params: self.make_params() })
            },
            None => None,
        }
    }

    /// The texture between the passes once the stream's colours and the picture
    /// that waits are taken in: a change of either leaves it behind.
    pub open spec fn outdated(offscreen: HdrOffscreen, changed: bool) -> HdrOffscreen {
        HdrOffscreen { current: offscreen.current && !changed, ..offscreen }
    }

    /// Takes the stream's colours, then the picture that waits, if there is
    /// one, into the renderer, and says which passes follow.
    pub fn prepare(
        &self,
        renderer: &mut VideoRenderer,
        offscreen: &mut HdrOffscreen,
        frame: Option<&DecodedVideoFrame>,
    ) -> (r: Prepared)
        requires
            frame matches Some(f) ==> old(renderer).textures_for(*f).can_upload(*f),
        ensures
            ({
                let colored = old(renderer).with_color_space(self.color_space, self.full_range);
                &&& old(renderer).writes(colored, r.uniforms)
                &&& match (frame, r.upload) {
                    (Some(f), Some(u)) => {
                        &&& *final(renderer) == colored.with_frame(*f)
                        &&& colored.uploads(*f, u)
                    },
                    (None, None) => *final(renderer) == colored,
                    _ => false,
                }
            }),
            ({
                let left = Self::outdated(
                    *old(offscreen),
                    r.uniforms is Some || r.upload is Some,
                );
                &&& r.passes == self.passes(left, final(renderer).size())
                &&& *final(offscreen) == self.after_passes(left, final(renderer).size())
            }),
    {
        let uniforms = renderer.set_color_space(self.color_space, self.full_range);
        let upload = match frame {
            Some(f) => Some(renderer.upload_frame(f)),
            None => None,
        };
        if uniforms.is_some() || upload.is_some() {
            offscreen.current = false;
        }
        let size = renderer.frame_size();
        let passes = self.hdr_pass(offscreen, size);
        Prepared { uniforms, upload, passes }
    }

    /// What it takes to capture a picture of a size: all the passes that show
    /// it, into a texture, and the layout in which that texture is read back.
    pub fn capture(&self, offscreen: &mut HdrOffscreen, w: u32, h: u32) -> (r: CapturePlan)
        requires
            CaptureLayout::can_hold(w, h),
        ensures
            r.layout.is_for(w, h),
            r.passes == self.passes(Self::outdated(*old(offscreen), true), Some((w, h))),
            *final(offscreen) == self.after_passes(
                Self::outdated(*old(offscreen), true),
                Some((w, h)),
            ),
    {
        let layout = CaptureLayout::new(w, h);
        offscreen.current = false;
        let passes = self.hdr_pass(offscreen, Some((w, h)));
        CapturePlan { layout, passes }
    }

    /// What draws the picture on the screen: tone mapping where the transfer
    /// function is not the standard one.
    pub fn paint(&self) -> (r: PaintSource)
        ensures
            r == (if self.transfer != 0 {
                PaintSource::ToneMapper
            } else {
                PaintSource::Renderer
            }),
    {
        if self.transfer != 0 {
            PaintSource::ToneMapper
        } else {
            PaintSource::Renderer
        }
    }
}

impl SnapshotState {
    /// Nothing asked for, nothing taken.
    pub fn new() -> (r: SnapshotState)
        ensures
            !r.requested,
            r.result is None,
    {
        SnapshotState { requested: false, result: None }
    }

    /// Takes the request, which is spent even where no picture can be taken.
    /// The size of the picture to take, if it was asked for and there is one.
    pub fn begin(&mut self, size: Option<(u32, u32)>) -> (r: Option<(u32, u32)>)
        ensures
            r == (if old(self).requested {
                size
            } else {
                None
            }),
            !final(self).requested,
            final(self).result == old(self).result,
    {
        let requested = self.requested;
        self.requested = false;
        if requested {
            size
        } else {
            None
        }
    }

    /// Takes in the pixels of a capture. A capture that failed leaves the last
    /// one.
    pub fn finish(&mut self, w: u32, h: u32, pixels: Option<Vec<u8>>)
        ensures
            final(self).requested == old(self).requested,
            final(self).result == (match pixels {
                Some(p) => Some((w, h, p)),
                None => old(self).result,
            }),
    {
        if let Some(p) = pixels {
            self.result = Some((w, h, p));
        }
    }
}

/// The smallest multiple of 256 that is not under `n`.
pub open spec fn padded_to(n: int) -> int {
    ((n + 255) / 256) * 256
}

/// The pixels of `h` lines that start `padded` bytes apart.
pub open spec fn compact(data: Seq<u8>, unpadded: int, padded: int, h: int) -> Seq<u8> {
    Seq::new((h * unpadded) as nat, |i: int| data[(i / unpadded) * padded + i % unpadded])
}

impl CaptureLayout {
    /// The layout is that of a capture of this size.
    pub open spec fn is_for(self, w: u32, h: u32) -> bool {
        &&& self.unpadded == w * 4
        &&& self.padded == padded_to(w * 4)
        &&& self.size == padded_to(w * 4) * h
    }

    /// A capture of this size fits the machine.
    pub open spec fn can_hold(w: u32, h: u32) -> bool {
        w * 4 + 255 <= usize::MAX && padded_to(w * 4) * h <= usize::MAX
    }

    /// Whether a capture of this size fits the machine.
    pub fn fits(w: u32, h: u32) -> (r: bool)
        ensures
            r == Self::can_hold(w, h),
    {
        let bytes: u64 = w as u64 * 4;
        if bytes + 255 > usize::MAX as u64 {
            return false;
        }
        let padded: u64 = ((bytes + 255) / 256) * 256;
        product(padded as usize, h as usize) <= usize::MAX as u128
    }

    /// The layout of a capture: four bytes a pixel.
    pub fn new(w: u32, h: u32) -> (r: CaptureLayout)
        requires
            Self::can_hold(w, h),
        ensures
            r.is_for(w, h),
    {
        let unpadded: usize = w as usize * 4;
        let padded: usize = ((unpadded + 255) / 256) * 256;
        let size: usize = padded * h as usize;
        CaptureLayout { unpadded, padded, size }
    }

    /// The pixels of a capture, line by line without padding.
    pub fn pixels(&self, data: &[u8], h: u32) -> (r: Vec<u8>)
        requires
            self.unpadded <= self.padded,
            self.padded * h <= data@.len(),
        ensures
            r@ == compact(data@, self.unpadded as int, self.padded as int, h as int),
    {
        let n: usize = self.unpadded;
        let p: usize = self.padded;
        let len: usize = data.len();
        let mut out: Vec<u8> = Vec::new();
        let mut row: usize = 0;
        let lines: usize = h as usize;
        while row < lines
            invariant
                row <= lines,
                n <= p,
                len == data@.len(),
                p * lines <= len,
                out@.len() == row * n,
                forall|k: int|
                    0 <= k < out@.len() ==> #[trigger] out@[k] == data@[(k / (n as int)) * p + k % (
                    n as int)],
            decreases lines - row,
        {
            assert(0 <= row * p && row * p + p <= p * lines) by (nonlinear_arith)
                requires
                    0 <= row < lines,
                    0 <= p,
            ;
            let start: usize = row * p;
            let mut i: usize = 0;
            while i < n
                invariant
                    i <= n,
                    n <= p,
                    start == row * p,
                    start + p <= len,
                    len == data@.len(),
                    out@.len() == row * n + i,
                    forall|k: int|
                        0 <= k < out@.len() ==> #[trigger] out@[k] == data@[(k / (n as int)) * p + k
                            % (n as int)],
                decreases n - i,
            {
                proof {
                    vstd::arithmetic::div_mod::lemma_fundamental_div_mod_converse(
                        row * n + i,
                        n as int,
                        row as int,
                        i as int,
                    );
                }
                out.push(data[start + i]);
                i += 1;
            }
            assert(out@.len() == (row + 1) * n) by (nonlinear_arith)
                requires
                    out@.len() == row * n + n,
            ;
            row += 1;
        }
        assert(out@ =~= compact(data@, n as int, p as int, h as int));
        out
    }
}

/// The lines of a capture start at multiples of 256 bytes, hold their pixels,
/// and waste no more than they must.
pub proof fn law_capture_lines_are_aligned(n: int)
    requires
        0 <= n,
    ensures
        padded_to(n) % 256 == 0,
        n <= padded_to(n) < n + 256,
{
}

/// Taking the padding out gives the picture back: whatever stands between the
/// lines, the pixels come out as they went in.
pub proof fn law_capture_gives_the_picture_back(
    picture: Seq<u8>,
    data: Seq<u8>,
    unpadded: int,
    padded: int,
    h: int,
)
    requires
        0 <= unpadded <= padded,
        0 <= h,
        picture.len() == h * unpadded,
        forall|row: int, i: int|
            0 <= row < h && 0 <= i < unpadded ==> #[trigger] data[row * padded + i]
                == picture[row * unpadded + i],
    ensures
        compact(data, unpadded, padded, h) == picture,
{
    let c = compact(data, unpadded, padded, h);
    assert(unpadded == 0 ==> h * unpadded == 0) by (nonlinear_arith);
    assert forall|k: int| 0 <= k < picture.len() implies c[k] == picture[k] by {
        let row = k / unpadded;
        let i = k % unpadded;
        vstd::arithmetic::div_mod::lemma_fundamental_div_mod(k, unpadded);
        assert(0 <= row < h) by (nonlinear_arith)
            requires
                k == unpadded * row + i,
                0 <= i < unpadded,
                0 <= k < h * unpadded,
        ;
        assert(unpadded * row == row * unpadded) by (nonlinear_arith);
        assert(data[row * padded + i] == picture[row * unpadded + i]);
    }
    assert(c =~= picture);
}

/// A capture shows what the screen shows: the passes are the same, with the
/// same tone mapping, and right after they were made for the screen the texture
/// between them serves again.
pub proof fn law_capture_is_what_is_seen(
    c: VideoPaintCallback,
    offscreen: HdrOffscreen,
    w: u32,
    h: u32,
)
    ensures
        ({
            let size = Some((w, h));
            let shown = c.passes(offscreen, size);
            let after = c.after_passes(offscreen, size);
            let captured = c.passes(VideoPaintCallback::outdated(after, true), size);
            &&& shown is Some <==> c.transfer != 0
            &&& captured is Some <==> shown is Some
            &&& captured matches Some(p) ==> p.texture is None && p.convert && p.params
                == shown->0.params
        }),
{
}

/// An HDR picture is converted once, however often it is drawn: a redraw with
/// neither a new picture nor new colours only maps tones again. A new picture
/// is always converted.
pub proof fn law_picture_is_converted_once(
    c: VideoPaintCallback,
    offscreen: HdrOffscreen,
    w: u32,
    h: u32,
)
    requires
        c.transfer != 0,
    ensures
        ({
            let size = Some((w, h));
            let first = c.passes(VideoPaintCallback::outdated(offscreen, true), size);
            let after = c.after_passes(VideoPaintCallback::outdated(offscreen, true), size);
            let redraw = c.passes(VideoPaintCallback::outdated(after, false), size);
            &&& first matches Some(p) && p.convert
            &&& redraw matches Some(p) && !p.convert && p.texture is None && p.params
                == first->0.params
        }),
{
}

/// Tone mapping is told the stream as it is: its own transfer function, so that
/// PQ and HLG are never taken for one another, the mode that was chosen, and
/// the light of the content, which is at least one nit; exposure is one. There
/// are passes exactly for a picture whose transfer function is not the standard
/// one.
pub proof fn law_tone_mapping_is_told_the_stream(
    c: VideoPaintCallback,
    offscreen: HdrOffscreen,
    size: Option<(u32, u32)>,
)
    ensures
        c.passes(offscreen, size) is Some <==> c.transfer != 0 && size is Some,
        c.passes(offscreen, size) matches Some(p) ==> {
            &&& p.params.transfer == c.transfer
            &&& p.params.mode == c.tonemap_mode
            &&& p.params.exposure.num == p.params.exposure.den && p.params.exposure.den != 0
            &&& c.max_luminance.num >= c.max_luminance.den ==> p.params.max_luminance
                == c.max_luminance
            &&& c.max_luminance.num < c.max_luminance.den ==> p.params.max_luminance.num
                == p.params.max_luminance.den && p.params.max_luminance.den > 0
        },
{
}

/// Two streams that differ in their transfer function, in the mode of tone
/// mapping or in their light, from one nit on, never get the same parameters.
pub proof fn law_streams_are_told_apart(
    a: VideoPaintCallback,
    b: VideoPaintCallback,
    offscreen: HdrOffscreen,
    size: (u32, u32),
)
    requires
        a.transfer != 0,
        b.transfer != 0,
        a.max_luminance.num >= a.max_luminance.den,
        b.max_luminance.num >= b.max_luminance.den,
    ensures
        a.passes(offscreen, Some(size)) == b.passes(offscreen, Some(size)) <==> a.transfer
            == b.transfer && a.tonemap_mode == b.tonemap_mode && a.max_luminance
            == b.max_luminance,
{
}

/// The texture between the passes has the size of the picture, and at least one
/// pixel each way; it is made anew exactly when the size is another. The picture
/// is converted unless the texture holds it already, and then the texture does.
pub proof fn law_the_texture_fits_the_picture(
    c: VideoPaintCallback,
    offscreen: HdrOffscreen,
    w: u32,
    h: u32,
)
    requires
        c.transfer != 0,
    ensures
        ({
            let p = c.passes(offscreen, Some((w, h)))->0;
            let after = c.after_passes(offscreen, Some((w, h)));
            &&& p.texture is None <==> offscreen.size == Some((w, h))
            &&& p.texture matches Some(t) ==> t.0 >= 1 && t.1 >= 1 && t.0 >= w && t.1 >= h && t.0
                <= w + 1 && t.1 <= h + 1 && (w > 0 ==> t.0 == w) && (h > 0 ==> t.1 == h)
            &&& !p.convert <==> offscreen.current && offscreen.size == Some((w, h))
            &&& after.current && after.size == Some((w, h))
        }),
        c.after_passes(offscreen, None) == offscreen,
{
}

/// Nothing that a standard stream shows touches the texture between the passes,
/// and a texture is outdated by a change and by nothing else.
pub proof fn law_only_changes_outdate_the_texture(
    c: VideoPaintCallback,
    offscreen: HdrOffscreen,
    size: Option<(u32, u32)>,
)
    ensures
        c.transfer == 0 ==> c.after_passes(offscreen, size) == offscreen,
        !VideoPaintCallback::outdated(offscreen, true).current,
        VideoPaintCallback::outdated(offscreen, false) == offscreen,
        VideoPaintCallback::outdated(offscreen, true).size == offscreen.size,
{
}

/// A capture has four bytes for each pixel of a line, lines that start at
/// multiples of 256 bytes and lose less than that, and one of them for each line
/// of the picture.
pub proof fn law_captures_have_four_bytes_a_pixel(layout: CaptureLayout, w: u32, h: u32)
    requires
        layout.is_for(w, h),
    ensures
        layout.unpadded == 4 * w,
        layout.padded % 256 == 0,
        4 * w <= layout.padded < 4 * w + 256,
        layout.size == layout.padded * h,
{
}

/// A capture fits the machine exactly when its bytes can be counted: those of a
/// line before it is rounded up to whole blocks of 256, and those of all lines
/// after.
pub proof fn law_captures_fit_when_they_can_be_counted(w: u32, h: u32)
    ensures
        CaptureLayout::can_hold(w, h) <==> 4 * w + 255 <= usize::MAX && ((4 * w + 255) / 256 * 256)
            * h <= usize::MAX,
{
}

} // verus!
