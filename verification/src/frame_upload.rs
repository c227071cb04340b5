//! How a decoded picture reaches the textures of the GPU.

use vstd::prelude::*;

use crate::bytes;
use crate::pixel::PixelFormat;
use crate::timing::product;
use crate::video::{DecodedVideoFrame, SourceFormat};

verus! {

/// The layout of a picture's textures.
#[derive(Debug, Clone, Copy, PartialEq, Eq, Structural)]
pub struct TexLayout {
    /// The two chroma components share the second texture; the third is then
    /// filler.
    pub semi: bool,
    /// Samples are stored on 16 bits.
    pub bits16: bool,
}

/// The format of a texture: components and bits of each.
#[derive(Debug, Clone, Copy, PartialEq, Eq, Structural)]
pub enum TexFormat {
    R8Unorm,
    R16Unorm,
    Rg8Unorm,
    Rg16Unorm,
}

/// A texture to make.
#[derive(Debug, Clone, Copy, PartialEq, Eq, Structural)]
pub struct TextureSpec {
    pub format: TexFormat,
    pub width: u32,
    pub height: u32,
}

/// The three textures to make for a picture.
#[derive(Debug, Clone, Copy, PartialEq, Eq, Structural)]
pub struct TexturePlan {
    pub y: TextureSpec,
    pub u: TextureSpec,
    pub v: TextureSpec,
}

/// One of the three textures.
#[derive(Debug, Clone, Copy, PartialEq, Eq, Structural)]
pub enum TextureSlot {
    Y,
    U,
    V,
}

/// The bytes that go into a texture.
pub enum PlaneBytes {
    /// A plane of the picture, by its index.
    Plane(usize),
    /// Bytes made from a plane.
    Narrowed(Vec<u8>),
}

/// A write to a texture.
pub struct PlaneUpload {
    pub slot: TextureSlot,
    pub source: PlaneBytes,
    /// Bytes from the start of a line to the start of the next.
    pub bytes_per_row: u32,
    pub width: u32,
    pub height: u32,
}

/// The textures that stand: the size and the layout they were made for.
#[derive(Debug, Clone, Copy, PartialEq, Eq, Structural)]
pub struct YuvTextures {
    pub width: u32,
    pub height: u32,
    pub layout: TexLayout,
}

/// A length that a texture can have: at least one.
pub open spec fn texels(n: u32) -> u32 {
    if n == 0 {
        1
    } else {
        n
    }
}

/// A texture of a format and a size.
pub open spec fn texture(format: TexFormat, width: u32, height: u32) -> TextureSpec {
    TextureSpec { format, width: texels(width), height: texels(height) }
}

impl TexLayout {
    /// The format of the luma texture.
    pub open spec fn luma(self) -> TexFormat {
        if self.bits16 {
            TexFormat::R16Unorm
        } else {
            TexFormat::R8Unorm
        }
    }

    /// The format of the chroma textures.
    pub open spec fn chroma(self) -> TexFormat {
        if !self.semi {
            self.luma()
        } else if self.bits16 {
            TexFormat::Rg16Unorm
        } else {
            TexFormat::Rg8Unorm
        }
    }

    /// The textures for pictures of a size: chroma has half the size of luma,
    /// and the third texture is one texel where it is filler.
    pub open spec fn plan(self, width: u32, height: u32) -> TexturePlan {
        TexturePlan {
            y: texture(self.luma(), width, height),
            u: texture(self.chroma(), width / 2, height / 2),
            v: if self.semi {
                texture(self.chroma(), 1, 1)
            } else {
                texture(self.chroma(), width / 2, height / 2)
            },
        }
    }
}

fn make_texture(format: TexFormat, width: u32, height: u32) -> (r: TextureSpec)
    ensures
        r == texture(format, width, height),
{
    TextureSpec {
        format,
        width: if width == 0 {
            1
        } else {
            width
        },
        height: if height == 0 {
            1
        } else {
            height
        },
    }
}

/// The high byte of the 16-bit sample number `i` of a line that starts at
/// `start`; what lies past the end of the data counts as zero.
pub open spec fn high_byte(data: Seq<u8>, start: int, i: int) -> u8 {
    if start + 2 * i + 1 < data.len() {
        data[start + 2 * i + 1]
    } else {
        0
    }
}

/// The high bytes of `h` lines of `n` samples each, without what pads the
/// lines.
pub open spec fn narrowed(data: Seq<u8>, stride: int, n: int, h: int) -> Seq<u8> {
    Seq::new((h * n) as nat, |i: int| high_byte(data, (i / n) * stride, i % n))
}

/// The sizes of a narrowing fit the machine.
pub open spec fn narrows(stride: int, n: int, h: int) -> bool {
    &&& h * n <= isize::MAX
    &&& h > 0 ==> (h - 1) * stride + 2 * n <= usize::MAX
}

fn fits_narrowing(stride: usize, n: usize, h: usize) -> (r: bool)
    ensures
        r == narrows(stride as int, n as int, h as int),
{
    if product(h, n) > isize::MAX as u128 {
        return false;
    }
    if h == 0 {
        return true;
    }
    product(h - 1, stride) + 2 * (n as u128) <= usize::MAX as u128
}

proof fn lemma_line_starts_fit(stride: int, n: int, h: int, row: int)
    requires
        narrows(stride, n, h),
        0 <= stride,
        0 <= n,
        0 <= row < h,
    ensures
        0 <= row * stride,
        row * stride + 2 * n <= usize::MAX,
{
    assert(0 <= row * stride <= (h - 1) * stride) by (nonlinear_arith)
        requires
            0 <= stride,
            0 <= row < h,
    ;
}

/// Keeps the high byte of 16-bit samples: `w` texels of `comps` samples in each
/// of `h` lines.
fn narrow_16_to_8(data: &[u8], src_stride: usize, w: usize, h: usize, comps: usize) -> (r: Vec<u8>)
    requires
        w * comps <= usize::MAX,
        narrows(src_stride as int, w * comps, h as int),
    ensures
        r@ == narrowed(data@, src_stride as int, w * comps, h as int),
{
    let n: usize = w * comps;
    let len: usize = data.len();
    let mut out: Vec<u8> = Vec::new();
    let mut row: usize = 0;
    while row < h
        invariant
            row <= h,
            len == data@.len(),
            narrows(src_stride as int, n as int, h as int),
            out@.len() == row * n,
            forall|k: int|
                0 <= k < out@.len() ==> #[trigger] out@[k] == high_byte(
                    data@,
                    (k / (n as int)) * src_stride,
                    k % (n as int),
                ),
        decreases h - row,
    {
        proof {
            lemma_line_starts_fit(src_stride as int, n as int, h as int, row as int);
        }
        let start: usize = row * src_stride;
        let mut i: usize = 0;
        while i < n
            invariant
                i <= n,
                row < h,
                start == row * src_stride,
                start + 2 * n <= usize::MAX,
                len == data@.len(),
                out@.len() == row * n + i,
                forall|k: int|
                    0 <= k < out@.len() ==> #[trigger] out@[k] == high_byte(
                        data@,
                        (k / (n as int)) * src_stride,
                        k % (n as int),
                    ),
            decreases n - i,
        {
            let idx: usize = start + i * 2 + 1;
            let byte: u8 = if idx < len {
                data[idx]
            } else {
                0
            };
            proof {
                vstd::arithmetic::div_mod::lemma_fundamental_div_mod_converse(
                    row * n + i,
                    n as int,
                    row as int,
                    i as int,
                );
            }
            out.push(byte);
            i += 1;
        }
        assert(out@.len() == (row + 1) * n) by (nonlinear_arith)
            requires
                out@.len() == row * n + n,
        ;
        row += 1;
    }
    assert(out@ =~= narrowed(data@, src_stride as int, n as int, h as int));
    out
}

impl PlaneUpload {
    /// The bytes that go into the texture.
    pub open spec fn content(self, frame: DecodedVideoFrame) -> Seq<u8> {
        match self.source {
            PlaneBytes::Plane(i) => frame.planes@[i as int]@,
            PlaneBytes::Narrowed(bytes) => bytes@,
        }
    }
}

/// How many planes of a layout go to textures.
pub open spec fn upload_count(format: PixelFormat) -> int {
    match format {
        PixelFormat::Yuv420p | PixelFormat::Yuv420p10le => 3,
        PixelFormat::Nv12 | PixelFormat::P010Le => 2,
        _ => 0,
    }
}

/// The texture of plane `i`.
pub open spec fn slot_of(i: int) -> TextureSlot {
    if i == 0 {
        TextureSlot::Y
    } else if i == 1 {
        TextureSlot::U
    } else {
        TextureSlot::V
    }
}

/// Samples in a texel of plane `i`.
pub open spec fn components(format: PixelFormat, i: int) -> int {
    if format == PixelFormat::P010Le && i > 0 {
        2
    } else {
        1
    }
}

impl YuvTextures {
    /// Texels in a line of plane `i`.
    pub open spec fn columns(self, i: int) -> u32 {
        if i == 0 {
            self.width
        } else {
            self.width / 2
        }
    }

    /// Lines of plane `i`.
    pub open spec fn lines(self, i: int) -> u32 {
        if i == 0 {
            self.height
        } else {
            self.height / 2
        }
    }

    /// Pictures of a layout lose the low byte of their samples: the samples
    /// have 16 bits, and the textures do not.
    pub open spec fn narrows_format(self, format: PixelFormat) -> bool {
        (format == PixelFormat::Yuv420p10le || format == PixelFormat::P010Le) && !self.layout.bits16
    }

    /// The picture has the planes that its layout needs, and what has to be
    /// made of them fits the machine.
    pub open spec fn can_upload(self, frame: DecodedVideoFrame) -> bool {
        &&& frame.planes@.len() >= upload_count(frame.format)
        &&& frame.strides@.len() >= upload_count(frame.format)
        &&& self.narrows_format(frame.format) ==> forall|i: int|
            0 <= i < upload_count(frame.format) ==> narrows(
                #[trigger] frame.strides@[i] as int,
                self.columns(i) * components(frame.format, i),
                self.lines(i) as int,
            )
    }

    /// What goes into the texture of plane `i`.
    pub open spec fn upload_content(self, frame: DecodedVideoFrame, i: int) -> Seq<u8> {
        if self.narrows_format(frame.format) {
            narrowed(
                frame.planes@[i]@,
                frame.strides@[i] as int,
                self.columns(i) * components(frame.format, i),
                self.lines(i) as int,
            )
        } else {
            frame.planes@[i]@
        }
    }

    /// Bytes from a line of plane `i` to the next: what the picture has, or no
    /// padding at all where samples are narrowed.
    pub open spec fn upload_stride(self, frame: DecodedVideoFrame, i: int) -> u32 {
        if self.narrows_format(frame.format) {
            (self.columns(i) * components(frame.format, i)) as u32
        } else {
            frame.strides@[i] as u32
        }
    }

    /// The write to the texture of plane `i`.
    pub open spec fn is_upload(self, frame: DecodedVideoFrame, i: int, u: PlaneUpload) -> bool {
        &&& u.slot == slot_of(i)
        &&& u.content(frame) == self.upload_content(frame, i)
        &&& u.bytes_per_row == self.upload_stride(frame, i)
        &&& u.width == self.columns(i)
        &&& u.height == self.lines(i)
    }

    /// Whether a picture can be brought into the textures.
    pub fn accepts(&self, frame: &DecodedVideoFrame) -> (r: bool)
        ensures
            r == self.can_upload(*frame),
    {
        let count: usize = match frame.format {
            PixelFormat::Yuv420p | PixelFormat::Yuv420p10le => 3,
            PixelFormat::Nv12 | PixelFormat::P010Le => 2,
            _ => 0,
        };
        if frame.planes.len() < count || frame.strides.len() < count {
            return false;
        }
        if !(frame.format.is_hdr10bit() && !self.layout.bits16) {
            return true;
        }
        for i in 0..count
            invariant
                count == upload_count(frame.format),
                frame.strides@.len() >= count,
                self.narrows_format(frame.format),
                forall|k: int|
                    0 <= k < i ==> narrows(
                        #[trigger] frame.strides@[k] as int,
                        self.columns(k) * components(frame.format, k),
                        self.lines(k) as int,
                    ),
        {
            let (width, height): (u32, u32) = if i == 0 {
                (self.width, self.height)
            } else {
                (self.width / 2, self.height / 2)
            };
            let comps: u32 = if frame.format == PixelFormat::P010Le && i > 0 {
                2
            } else {
                1
            };
            let n: u32 = width * comps;
            let fits = fits_narrowing(frame.strides[i], n as usize, height as usize);
            assert(fits == narrows(
                frame.strides@[i as int] as int,
                self.columns(i as int) * components(frame.format, i as int),
                self.lines(i as int) as int,
            ));
            if !fits {
                return false;
            }
        }
        true
    }

    /// The textures that have to be made for pictures of a size and a layout:
    /// none where those that stand serve.
    pub open spec fn missing(
        current: Option<YuvTextures>,
        width: u32,
        height: u32,
        layout: TexLayout,
    ) -> Option<TexturePlan> {
        if current == Some(YuvTextures { width, height, layout }) {
            None
        } else {
            Some(layout.plan(width, height))
        }
    }

    /// The textures for pictures of a size and a layout, and which of them have
    /// to be made: none where those that stand serve.
    pub fn ensure(current: Option<YuvTextures>, w: u32, h: u32, layout: TexLayout) -> (r: (
        YuvTextures,
        Option<TexturePlan>,
    ))
        ensures
            r.0 == (YuvTextures { width: w, height: h, layout }),
            r.1 == Self::missing(current, w, h, layout),
    {
        let wanted = YuvTextures { width: w, height: h, layout };
        if let Some(t) = current {
            if t.width == w && t.height == h && t.layout == layout {
                return (wanted, None);
            }
        }
        let luma = if layout.bits16 {
            TexFormat::R16Unorm
        } else {
            TexFormat::R8Unorm
        };
        let chroma = match (layout.semi, layout.bits16) {
            (true, true) => TexFormat::Rg16Unorm,
            (true, false) => TexFormat::Rg8Unorm,
            (false, _) => luma,
        };
        let plan = TexturePlan {
            y: make_texture(luma, w, h),
            u: make_texture(chroma, w / 2, h / 2),
            v: if layout.semi {
                make_texture(chroma, 1, 1)
            } else {
                make_texture(chroma, w / 2, h / 2)
            },
        };
        (wanted, Some(plan))
    }

    /// The layout of the textures.
    pub fn layout(&self) -> (r: TexLayout)
        ensures
            r == self.layout,
    {
        self.layout
    }

    /// The write to the texture of one plane.
    fn plane_upload(&self, frame: &DecodedVideoFrame, i: usize) -> (r: PlaneUpload)
        requires
            self.can_upload(*frame),
            i < upload_count(frame.format),
        ensures
            self.is_upload(*frame, i as int, r),
    {
        let (width, height): (u32, u32) = if i == 0 {
            (self.width, self.height)
        } else {
            (self.width / 2, self.height / 2)
        };
        let slot = if i == 0 {
            TextureSlot::Y
        } else if i == 1 {
            TextureSlot::U
        } else {
            TextureSlot::V
        };
        let stride: usize = frame.strides[i];
        if frame.format.is_hdr10bit() && !self.layout.bits16 {
            assert(narrows(
                frame.strides@[i as int] as int,
                self.columns(i as int) * components(frame.format, i as int),
                self.lines(i as int) as int,
            ));
            let comps: u32 = if frame.format == PixelFormat::P010Le && i > 0 {
                2
            } else {
                1
            };
            let bytes = narrow_16_to_8(
                frame.planes[i].as_slice(),
                stride,
                width as usize,
                height as usize,
                comps as usize,
            );
            PlaneUpload {
                slot,
                source: PlaneBytes::Narrowed(bytes),
                bytes_per_row: width * comps,
                width,
                height,
            }
        } else {
            PlaneUpload {
                slot,
                source: PlaneBytes::Plane(i),
                bytes_per_row: #[verifier::truncate]
                (stride as u32),
                width,
                height,
            }
        }
    }

    /// The writes that bring a picture into the textures, plane by plane.
    /// Layouts that the renderer cannot show make none.
    pub fn upload(&self, frame: &DecodedVideoFrame) -> (r: Vec<PlaneUpload>)
        requires
            self.can_upload(*frame),
        ensures
            r@.len() == upload_count(frame.format),
            forall|i: int|
                0 <= i < upload_count(frame.format) ==> self.is_upload(*frame, i, #[trigger] r@[i]),
    {
        let count: usize = match frame.format {
            PixelFormat::Yuv420p | PixelFormat::Yuv420p10le => 3,
            PixelFormat::Nv12 | PixelFormat::P010Le => 2,
            _ => 0,
        };
        let mut writes: Vec<PlaneUpload> = Vec::new();
        let mut i: usize = 0;
        while i < count
            invariant
                i <= count,
                count == upload_count(frame.format),
                self.can_upload(*frame),
                writes@.len() == i,
                forall|k: int|
                    0 <= k < i ==> self.is_upload(*frame, k, #[trigger] writes@[k]),
            decreases count - i,
        {
            writes.push(self.plane_upload(frame, i));
            i += 1;
        }
        writes
    }
}

/// Narrowing divides each 16-bit sample by 256: the byte of sample `i` of line
/// `row` is the quotient.
pub proof fn law_narrowing_divides(data: Seq<u8>, stride: int, n: int, h: int, row: int, i: int)
    requires
        0 <= row < h,
        0 <= i < n,
        0 <= stride,
        row * stride + 2 * i + 1 < data.len(),
    ensures
        0 <= row * n + i < narrowed(data, stride, n, h).len(),
        narrowed(data, stride, n, h)[row * n + i] == bytes::le16(data, row * stride + 2 * i) / 256,
{
    assert(0 <= row * n + i < h * n) by (nonlinear_arith)
        requires
            0 <= row < h,
            0 <= i < n,
    ;
    assert(0 <= row * stride) by (nonlinear_arith)
        requires
            0 <= row,
            0 <= stride,
    ;
    vstd::arithmetic::div_mod::lemma_fundamental_div_mod_converse(row * n + i, n, row, i);
}

/// Textures are made once for a size and a layout, and anew for every other.
pub proof fn law_textures_last_while_pictures_are_alike(
    standing: YuvTextures,
    width: u32,
    height: u32,
    layout: TexLayout,
)
    ensures
        YuvTextures::missing(Some(standing), width, height, layout) is None <==> standing.width
            == width && standing.height == height && standing.layout == layout,
        YuvTextures::missing(None, width, height, layout) is Some,
{
}

/// Whatever a decoder produces, the picture that reaches the renderer has the
/// planes that its textures take, and at least two of them.
pub proof fn law_decoded_pictures_can_be_shown(source: SourceFormat)
    ensures
        upload_count(source.target().pixel_format()) == source.target().plane_count(),
        source.target().plane_count() >= 2,
{
}

/// What a line lacks is black: a sample past the end of the data narrows to
/// zero.
pub proof fn law_missing_samples_are_zero(
    data: Seq<u8>,
    stride: int,
    n: int,
    h: int,
    row: int,
    i: int,
)
    requires
        0 <= row < h,
        0 <= i < n,
        0 <= stride,
        row * stride + 2 * i + 1 >= data.len(),
    ensures
        narrowed(data, stride, n, h).len() == h * n,
        narrowed(data, stride, n, h)[row * n + i] == 0,
{
    assert(0 <= row * n + i < h * n) by (nonlinear_arith)
        requires
            0 <= row < h,
            0 <= i < n,
    ;
    vstd::arithmetic::div_mod::lemma_fundamental_div_mod_converse(row * n + i, n, row, i);
}

/// A narrowing is made whenever its result, and the place of every byte that it
/// reads, can be counted, and only then.
pub proof fn law_narrowings_fit_when_they_can_be_counted(
    stride: int,
    n: int,
    h: int,
    row: int,
    i: int,
)
    requires
        0 <= stride,
        0 <= row < h,
        0 <= i < n,
    ensures
        narrows(stride, n, h) ==> h * n <= isize::MAX && row * stride + 2 * i + 1 < usize::MAX,
        h * n <= isize::MAX && (h - 1) * stride + 2 * n <= usize::MAX ==> narrows(stride, n, h),
{
    if narrows(stride, n, h) {
        lemma_line_starts_fit(stride, n, h, row);
    }
}

/// Planar pictures go to three textures, semi-planar ones to two, and what the
/// renderer cannot show to none; luma goes first, then the two of chroma.
pub proof fn law_every_plane_has_a_texture(format: PixelFormat)
    ensures
        upload_count(format) == 3 <==> format == PixelFormat::Yuv420p || format
            == PixelFormat::Yuv420p10le,
        upload_count(format) == 2 <==> format == PixelFormat::Nv12 || format == PixelFormat::P010Le,
        upload_count(format) == 0 || upload_count(format) == 2 || upload_count(format) == 3,
        slot_of(0) == TextureSlot::Y && slot_of(1) == TextureSlot::U && slot_of(2)
            == TextureSlot::V,
{
}

/// Chroma has half the columns and half the lines of luma, and with two
/// components in a texel the same number of samples in a line.
pub proof fn law_chroma_has_half_the_size(t: YuvTextures, i: int)
    requires
        i == 1 || i == 2,
    ensures
        t.columns(0) == t.width && t.lines(0) == t.height,
        2 * t.columns(i) <= t.width <= 2 * t.columns(i) + 1,
        2 * t.lines(i) <= t.height <= 2 * t.lines(i) + 1,
        components(PixelFormat::P010Le, 1) == 2 && components(PixelFormat::P010Le, 0) == 1,
        components(PixelFormat::Yuv420p10le, 0) == 1 && components(PixelFormat::Yuv420p10le, i)
            == 1,
{
}

/// Samples lose their low byte exactly where ten-bit pictures meet textures of
/// eight.
pub proof fn law_only_narrow_textures_lose_bits(t: YuvTextures, format: PixelFormat)
    ensures
        t.layout.bits16 ==> !t.narrows_format(format),
        !t.layout.bits16 ==> (t.narrows_format(format) <==> format == PixelFormat::Yuv420p10le
            || format == PixelFormat::P010Le),
{
}

/// A picture whose samples are kept is taken as soon as it has its planes; one
/// whose samples are narrowed also has to fit, plane by plane.
pub proof fn law_pictures_with_their_planes_are_taken(t: YuvTextures, frame: DecodedVideoFrame)
    ensures
        frame.planes@.len() >= 3 && frame.strides@.len() >= 3 && !t.narrows_format(frame.format)
            ==> t.can_upload(frame),
        t.can_upload(frame) ==> frame.planes@.len() >= upload_count(frame.format)
            && frame.strides@.len() >= upload_count(frame.format),
        t.narrows_format(frame.format) && frame.planes@.len() >= 3 && frame.strides@.len() >= 3
            && narrows(
            frame.strides@[0] as int,
            t.width as int,
            t.height as int,
        ) && (forall|i: int|
            1 <= i < 3 ==> narrows(
                #[trigger] frame.strides@[i] as int,
                2 * (t.width / 2),
                (t.height / 2) as int,
            ) && narrows(frame.strides@[i] as int, (t.width / 2) as int, (t.height / 2) as int))
            ==> t.can_upload(frame),
{
}

/// Luma and chroma textures hold as many bits as the samples have; where two
/// components share a texture it holds two, and the third is one texel.
pub proof fn law_textures_hold_their_samples(layout: TexLayout, width: u32, height: u32)
    requires
        width >= 2,
        height >= 2,
    ensures
        ({
            let plan = layout.plan(width, height);
            &&& plan.y.width == width && plan.y.height == height
            &&& plan.y.format == TexFormat::R16Unorm <==> layout.bits16
            &&& plan.y.format == TexFormat::R8Unorm <==> !layout.bits16
            &&& 2 * plan.u.width <= width <= 2 * plan.u.width + 1
            &&& 2 * plan.u.height <= height <= 2 * plan.u.height + 1
            &&& plan.u.format == TexFormat::Rg16Unorm <==> layout.semi && layout.bits16
            &&& plan.u.format == TexFormat::Rg8Unorm <==> layout.semi && !layout.bits16
            &&& !layout.semi ==> plan.u.format == plan.y.format && plan.v == plan.u
            &&& layout.semi ==> plan.v.format == plan.u.format && plan.v.width == 1 && plan.v.height
                == 1
        }),
{
}

/// No texture is empty: a length of zero counts as one, and any other as itself.
pub proof fn law_textures_are_never_empty(format: TexFormat, width: u32, height: u32)
    ensures
        texture(format, width, height).format == format,
        texture(format, width, height).width >= 1 && texture(format, width, height).height >= 1,
        width >= 1 ==> texture(format, width, height).width == width,
        height >= 1 ==> texture(format, width, height).height == height,
        texture(format, 0, 0).width == 1 && texture(format, 0, 0).height == 1,
{
}

} // verus!
