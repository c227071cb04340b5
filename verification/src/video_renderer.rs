//! What the renderer keeps between pictures, and what each change asks of the
//! GPU.

use vstd::prelude::*;

use crate::color::ColorUniforms;
use crate::frame_upload;
use crate::frame_upload::{
    PlaneUpload, TexFormat, TexLayout, TexturePlan, TextureSlot, YuvTextures,
};
use crate::pixel::PixelFormat;
use crate::timing::Ratio;
use crate::video::DecodedVideoFrame;

verus! {

/// The state of the renderer.
#[derive(Debug, Clone, Copy, PartialEq, Eq, Structural)]
pub struct VideoRenderer {
    /// 0 is BT.601, 1 is BT.709, 2 is BT.2020.
    pub color_space: u32,
    /// The chroma components of the last picture share a plane.
    pub semi_planar: bool,
    /// Samples use the full range.
    pub full_range: bool,
    /// The GPU has 16-bit normalised textures. Without them ten-bit pictures
    /// go into eight-bit textures, which take the high byte of each sample.
    pub supports_16bit: bool,
    /// What the samples of the last picture are multiplied by.
    pub sample_scale: Ratio,
    /// The textures of the last picture.
    pub textures: Option<YuvTextures>,
}

/// What a new picture asks of the GPU, in this order.
pub struct FrameUpload {
    /// The constants of the conversion, where they change.
    pub uniforms: Option<ColorUniforms>,
    /// What samples are multiplied by, where it changes.
    pub sample_scale: Option<Ratio>,
    /// The textures, where they have to be made.
    pub textures: Option<TexturePlan>,
    /// What goes into the textures.
    pub planes: Vec<PlaneUpload>,
    /// The third texture is not read: the second is bound in its place.
    pub v_is_u: bool,
}

/// The constants that the GPU holds after a change: those that were written, or
/// those that it held.
pub open spec fn held(written: Option<ColorUniforms>, before: ColorUniforms) -> ColorUniforms {
    match written {
        Some(u) => u,
        None => before,
    }
}

impl VideoRenderer {
    /// The constants are those for the state.
    pub open spec fn agrees(self, u: ColorUniforms) -> bool {
        u.are_for(self.color_space, self.full_range, self.semi_planar)
    }

    /// The constants are written exactly when what they depend on changes, and
    /// are then those for the new state.
    pub open spec fn writes(self, after: VideoRenderer, written: Option<ColorUniforms>) -> bool {
        &&& written is Some <==> self.color_space != after.color_space || self.full_range
            != after.full_range || self.semi_planar != after.semi_planar
        &&& written matches Some(u) ==> after.agrees(u)
    }

    /// The layout of the textures for pictures of a format.
    pub open spec fn layout_for(self, format: PixelFormat) -> TexLayout {
        TexLayout {
            semi: format == PixelFormat::Nv12 || format == PixelFormat::P010Le,
            bits16: (format == PixelFormat::Yuv420p10le || format == PixelFormat::P010Le)
                && self.supports_16bit,
        }
    }

    /// The textures for a picture.
    pub open spec fn textures_for(self, frame: DecodedVideoFrame) -> YuvTextures {
        YuvTextures {
            width: frame.width,
            height: frame.height,
            layout: self.layout_for(frame.format),
        }
    }

    /// The state after a change of colour space.
    pub open spec fn with_color_space(self, space: u32, full_range: bool) -> VideoRenderer {
        VideoRenderer { color_space: space, full_range, ..self }
    }

    /// The state after a picture.
    pub open spec fn with_frame(self, frame: DecodedVideoFrame) -> VideoRenderer {
        VideoRenderer {
            semi_planar: self.layout_for(frame.format).semi,
            sample_scale: frame.format.scale(),
            textures: Some(self.textures_for(frame)),
            ..self
        }
    }

    /// What a picture asks of the GPU.
    pub open spec fn uploads(self, frame: DecodedVideoFrame, u: FrameUpload) -> bool {
        &&& self.writes(self.with_frame(frame), u.uniforms)
        &&& u.sample_scale == (if self.sample_scale == frame.format.scale() {
            None
        } else {
            Some(frame.format.scale())
        })
        &&& u.textures == YuvTextures::missing(
            self.textures,
            frame.width,
            frame.height,
            self.layout_for(frame.format),
        )
        &&& u.planes@.len() == frame_upload::upload_count(frame.format)
        &&& forall|i: int|
            0 <= i < u.planes@.len() ==> self.textures_for(frame).is_upload(
                frame,
                i,
                #[trigger] u.planes@[i],
            )
        &&& u.v_is_u == self.layout_for(frame.format).semi
    }

    /// A renderer that has shown nothing, and the constants that it starts
    /// with: BT.709, limited range, three planes.
    pub fn new(supports_16bit: bool) -> (r: (VideoRenderer, ColorUniforms))
        ensures
            r.0 == (VideoRenderer {
                color_space: 1,
                semi_planar: false,
                full_range: false,
                supports_16bit,
                sample_scale: Ratio { num: 1, den: 1 },
                textures: None,
            }),
            r.0.agrees(r.1),
    {
        (
            VideoRenderer {
                color_space: 1,
                semi_planar: false,
                full_range: false,
                supports_16bit,
                sample_scale: Ratio { num: 1, den: 1 },
                textures: None,
            },
            ColorUniforms::bt709(false),
        )
    }

    /// The constants for the state.
    fn write_uniforms(&self) -> (r: ColorUniforms)
        ensures
            self.agrees(r),
    {
        let full = self.full_range;
        let uniforms = match self.color_space {
            0 => ColorUniforms::bt601(full),
            2 => ColorUniforms::bt2020(full),
            _ => ColorUniforms::bt709(full),
        };
        uniforms.with_semi(self.semi_planar)
    }

    /// Takes in the colour space and the range of the stream. The constants to
    /// write, if either changed.
    pub fn set_color_space(&mut self, space: u32, full_range: bool) -> (r: Option<ColorUniforms>)
        ensures
            *final(self) == old(self).with_color_space(space, full_range),
            old(self).writes(*final(self), r),
    {
        if self.color_space == space && self.full_range == full_range {
            return None;
        }
        self.color_space = space;
        self.full_range = full_range;
        Some(self.write_uniforms())
    }

    /// Whether a picture can be taken in: it has the planes that its layout
    /// needs, and what has to be made of them fits the machine.
    pub fn accepts(&self, frame: &DecodedVideoFrame) -> (r: bool)
        ensures
            r == self.textures_for(*frame).can_upload(*frame),
    {
        let layout = TexLayout {
            semi: frame.format.is_semi_planar(),
            bits16: frame.format.is_hdr10bit() && self.supports_16bit,
        };
        let textures = YuvTextures { width: frame.width, height: frame.height, layout };
        textures.accepts(frame)
    }

    /// Takes in a picture. What it asks of the GPU.
    pub fn upload_frame(&mut self, frame: &DecodedVideoFrame) -> (r: FrameUpload)
        requires
            old(self).textures_for(*frame).can_upload(*frame),
        ensures
            *final(self) == old(self).with_frame(*frame),
            old(self).uploads(*frame, r),
    {
        let semi = frame.format.is_semi_planar();
        let uniforms = if semi != self.semi_planar {
            self.semi_planar = semi;
            Some(self.write_uniforms())
        } else {
            None
        };
        let wanted = frame.format.sample_scale();
        let sample_scale = if wanted != self.sample_scale {
            self.sample_scale = wanted;
            Some(wanted)
        } else {
            None
        };
        let layout = TexLayout { semi, bits16: frame.format.is_hdr10bit() && self.supports_16bit };
        let (textures, plan) = YuvTextures::ensure(self.textures, frame.width, frame.height, layout);
        let planes = textures.upload(frame);
        self.textures = Some(textures);
        FrameUpload { uniforms, sample_scale, textures: plan, planes, v_is_u: semi }
    }

    /// Whether there is a picture to draw.
    pub fn render(&self) -> (r: bool)
        ensures
            r == (self.textures is Some),
    {
        self.textures.is_some()
    }

    /// Whether there is a picture to draw into a texture.
    pub fn render_to_offscreen(&self) -> (r: bool)
        ensures
            r == (self.textures is Some),
    {
        self.textures.is_some()
    }

    /// The size of the last picture.
    pub open spec fn size(self) -> Option<(u32, u32)> {
        match self.textures {
            Some(t) => Some((t.width, t.height)),
            None => None,
        }
    }

    /// The size of the last picture.
    pub fn frame_size(&self) -> (r: Option<(u32, u32)>)
        ensures
            r == self.size(),
    {
        match self.textures {
            Some(t) => Some((t.width, t.height)),
            None => None,
        }
    }
}

/// The constants that the GPU holds are always those for the state: they are
/// when the renderer is made, and every change keeps it so.
pub proof fn law_constants_follow_the_state(
    before: VideoRenderer,
    after: VideoRenderer,
    written: Option<ColorUniforms>,
    held_before: ColorUniforms,
)
    requires
        before.agrees(held_before),
        before.writes(after, written),
    ensures
        after.agrees(held(written, held_before)),
{
}

/// The scale that the GPU holds is that of the last picture. Ten bits at the
/// bottom of a word are stretched so that the largest sample fills a 16-bit
/// texture; at the top of a word they are left as they are.
pub proof fn law_ten_bits_fill_the_range(
    r: VideoRenderer,
    frame: DecodedVideoFrame,
    u: FrameUpload,
    scale_before: Ratio,
)
    requires
        r.sample_scale == scale_before,
        r.uploads(frame, u),
    ensures
        ({
            let scale = match u.sample_scale {
                Some(s) => s,
                None => scale_before,
            };
            &&& scale == r.with_frame(frame).sample_scale
            &&& frame.format == PixelFormat::Yuv420p10le ==> 1023 * scale.num == 65535 * scale.den
            &&& frame.format == PixelFormat::P010Le ==> scale.num == scale.den
        }),
{
}

/// The size that the renderer reports is that of the last picture, and there is
/// something to draw from the first picture on.
pub proof fn law_size_is_that_of_the_last_picture(
    r: VideoRenderer,
    first: DecodedVideoFrame,
    last: DecodedVideoFrame,
    space: u32,
    full_range: bool,
)
    ensures
        ({
            let after = r.with_frame(first).with_frame(last).with_color_space(space, full_range);
            after.size() == Some((last.width, last.height))
        }),
{
}

/// The constants are those of the stream: its space, by the shares that its
/// standard gives to red and blue, its range, and the layout of its chroma.
pub proof fn law_constants_are_those_of_the_stream(r: VideoRenderer, u: ColorUniforms)
    requires
        r.agrees(u),
    ensures
        r.color_space == 0 ==> u.converts(2990, 1140, r.full_range),
        r.color_space == 2 ==> u.converts(2627, 593, r.full_range),
        r.color_space != 0 && r.color_space != 2 ==> u.converts(2126, 722, r.full_range),
        u.offset@[0].num == (if r.semi_planar {
            1int
        } else {
            0int
        }),
        u.offset@[0].den == 1,
{
}

/// Constants are written when, and only when, the space, the range or the layout
/// of chroma becomes another; a change of colours alone touches no picture, and
/// a picture alone no colours.
pub proof fn law_constants_are_written_on_change(
    r: VideoRenderer,
    space: u32,
    full_range: bool,
    colours: Option<ColorUniforms>,
    frame: DecodedVideoFrame,
    u: FrameUpload,
)
    requires
        r.writes(r.with_color_space(space, full_range), colours),
        r.uploads(frame, u),
    ensures
        colours is Some <==> space != r.color_space || full_range != r.full_range,
        u.uniforms is Some <==> r.semi_planar != (frame.format == PixelFormat::Nv12 || frame.format
            == PixelFormat::P010Le),
        ({
            let after = r.with_color_space(space, full_range);
            &&& after.color_space == space && after.full_range == full_range
            &&& after.semi_planar == r.semi_planar && after.textures == r.textures
            &&& after.sample_scale == r.sample_scale && after.supports_16bit == r.supports_16bit
        }),
        ({
            let after = r.with_frame(frame);
            &&& after.color_space == r.color_space && after.full_range == r.full_range
            &&& after.supports_16bit == r.supports_16bit
            &&& after.semi_planar == (frame.format == PixelFormat::Nv12 || frame.format
                == PixelFormat::P010Le)
            &&& after.size() == Some((frame.width, frame.height))
        }),
{
}

/// A picture reaches the GPU plane by plane: luma in its full size, chroma in
/// half of it each way, in one texture of two components or in two of one. What
/// the GPU can hold goes as it is, line for line.
pub proof fn law_planes_reach_their_textures(
    r: VideoRenderer,
    frame: DecodedVideoFrame,
    u: FrameUpload,
    i: int,
)
    requires
        r.uploads(frame, u),
        0 <= i < u.planes@.len(),
    ensures
        ({
            let format = frame.format;
            let semi = format == PixelFormat::Nv12 || format == PixelFormat::P010Le;
            let planar = format == PixelFormat::Yuv420p || format == PixelFormat::Yuv420p10le;
            let ten = format == PixelFormat::Yuv420p10le || format == PixelFormat::P010Le;
            let p = u.planes@[i];
            &&& semi ==> u.planes@.len() == 2
            &&& planar ==> u.planes@.len() == 3
            &&& semi || planar
            &&& u.v_is_u == semi
            &&& i == 0 ==> p.slot == TextureSlot::Y && p.width == frame.width && p.height
                == frame.height
            &&& i == 1 ==> p.slot == TextureSlot::U
            &&& i == 2 ==> p.slot == TextureSlot::V
            &&& i > 0 ==> p.width == frame.width / 2 && p.height == frame.height / 2
            &&& !ten || r.supports_16bit ==> p.content(frame) == frame.planes@[i]@
            &&& (!ten || r.supports_16bit) && frame.strides@[i] <= u32::MAX ==> p.bytes_per_row
                == frame.strides@[i]
        }),
        !(frame.format is Yuv420p || frame.format is Yuv420p10le || frame.format is Nv12
            || frame.format is P010Le) ==> u.planes@.len() == 0,
{
}

/// A GPU without 16-bit textures gets the high byte of every 16-bit sample, lines
/// packed; a sample that is not there counts as zero.
pub proof fn law_high_bytes_reach_narrow_textures(
    r: VideoRenderer,
    frame: DecodedVideoFrame,
    u: FrameUpload,
    i: int,
    row: int,
    k: int,
)
    requires
        r.uploads(frame, u),
        r.textures_for(frame).can_upload(frame),
        frame.format == PixelFormat::Yuv420p10le || frame.format == PixelFormat::P010Le,
        !r.supports_16bit,
        0 <= i < u.planes@.len(),
        0 <= row < u.planes@[i].height,
        0 <= k < u.planes@[i].bytes_per_row,
    ensures
        ({
            let p = u.planes@[i];
            let samples = if frame.format == PixelFormat::P010Le && i == 1 {
                2 * p.width
            } else {
                p.width as int
            };
            let at = row * frame.strides@[i] + 2 * k + 1;
            &&& p.bytes_per_row == samples
            &&& p.content(frame).len() == p.height * samples
            &&& p.content(frame)[row * samples + k] == (if at < frame.planes@[i]@.len() {
                frame.planes@[i]@[at]
            } else {
                0u8
            })
        }),
{
    let p = u.planes@[i];
    let t = r.textures_for(frame);
    assert(t.is_upload(frame, i, p));
    let n = t.columns(i) * frame_upload::components(frame.format, i);
    let h = t.lines(i) as int;
    assert(i <= 2);
    assert(n <= u32::MAX);
    assert(p.bytes_per_row == n);
    assert(0 <= row * n + k < h * n) by (nonlinear_arith)
        requires
            0 <= row < h,
            0 <= k < n,
    ;
    vstd::arithmetic::div_mod::lemma_fundamental_div_mod_converse(row * n + k, n, row, k);
}

/// The textures for a picture have a texel for each of its samples: one
/// component for luma and for planar chroma, two for chroma that shares a plane,
/// of 16 bits exactly for ten-bit pictures on a GPU that has them. They are
/// made when the size or the layout is another, and not otherwise.
pub proof fn law_textures_are_made_for_the_picture(
    r: VideoRenderer,
    frame: DecodedVideoFrame,
    u: FrameUpload,
)
    requires
        r.uploads(frame, u),
    ensures
        ({
            let semi = frame.format == PixelFormat::Nv12 || frame.format == PixelFormat::P010Le;
            let wide = (frame.format == PixelFormat::Yuv420p10le || frame.format
                == PixelFormat::P010Le) && r.supports_16bit;
            &&& u.textures is None <==> (r.textures matches Some(t) && t.width == frame.width
                && t.height == frame.height && t.layout.semi == semi && t.layout.bits16 == wide)
            &&& u.textures matches Some(plan) ==> {
                &&& plan.y.format == (if wide {
                    TexFormat::R16Unorm
                } else {
                    TexFormat::R8Unorm
                })
                &&& plan.u.format == (match (semi, wide) {
                    (true, true) => TexFormat::Rg16Unorm,
                    (true, false) => TexFormat::Rg8Unorm,
                    (false, true) => TexFormat::R16Unorm,
                    (false, false) => TexFormat::R8Unorm,
                })
                &&& plan.v.format == plan.u.format
                &&& frame.width > 0 ==> plan.y.width == frame.width
                &&& frame.height > 0 ==> plan.y.height == frame.height
                &&& frame.width > 1 ==> plan.u.width == frame.width / 2
                &&& frame.height > 1 ==> plan.u.height == frame.height / 2
                &&& !semi ==> plan.v == plan.u
                &&& semi ==> plan.v.width == 1 && plan.v.height == 1
                &&& plan.y.width > 0 && plan.y.height > 0 && plan.u.width > 0 && plan.u.height > 0
            }
        }),
{
}

/// Samples fill the range from zero to one: the scale is one but for ten bits at
/// the bottom of a word. It is written when it becomes another.
pub proof fn law_scales_follow_the_pictures(
    r: VideoRenderer,
    frame: DecodedVideoFrame,
    u: FrameUpload,
)
    requires
        r.uploads(frame, u),
    ensures
        ({
            let after = r.with_frame(frame).sample_scale;
            &&& u.sample_scale is Some <==> r.sample_scale != after
            &&& u.sample_scale matches Some(s) ==> s == after
            &&& frame.format == PixelFormat::Yuv420p10le ==> 1023 * after.num == 65535 * after.den
            &&& frame.format != PixelFormat::Yuv420p10le ==> after.num == after.den
            &&& after.den > 0
        }),
{
}

} // verus!
