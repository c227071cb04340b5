//! Pixel layouts.

use vstd::prelude::*;

use crate::timing::Ratio;

verus! {

/// Pixel layout of a frame handed to the renderer.
#[derive(Debug, Clone, Copy, PartialEq, Eq, Structural)]
pub enum PixelFormat {
    /// Planar 4:2:0, 8 bits.
    Yuv420p,
    /// Planar 4:2:2, 8 bits.
    Yuv422p,
    /// Planar 4:4:4, 8 bits.
    Yuv444p,
    /// Semi-planar 4:2:0, 8 bits.
    Nv12,
    /// Planar 4:2:0, 10 bits in the low bits of 16-bit words.
    Yuv420p10le,
    /// Semi-planar 4:2:0, 10 bits in the high bits of 16-bit words.
    P010Le,
    /// Packed red, green, blue, alpha.
    Rgba,
    /// A picture that never left the GPU.
    D3d11,
}

impl PixelFormat {
    /// What stored samples are multiplied by to fill the range from zero to
    /// one: ten bits at the bottom of a word have to be stretched to sixteen.
    pub open spec fn scale(self) -> Ratio {
        if self == PixelFormat::Yuv420p10le {
            Ratio { num: 65535, den: 1023 }
        } else {
            Ratio { num: 1, den: 1 }
        }
    }

    /// Whether samples are stored on 16 bits.
    pub fn is_hdr10bit(self) -> (r: bool)
        ensures
            r == (self == PixelFormat::Yuv420p10le || self == PixelFormat::P010Le),
    {
        matches!(self, PixelFormat::Yuv420p10le | PixelFormat::P010Le)
    }

    /// What the shader multiplies samples by.
    pub fn sample_scale(self) -> (r: Ratio)
        ensures
            r == self.scale(),
    {
        match self {
            PixelFormat::Yuv420p10le => Ratio { num: 65535, den: 1023 },
            _ => Ratio { num: 1, den: 1 },
        }
    }

    /// Whether the picture exists on the GPU only.
    pub fn is_gpu_surface(self) -> (r: bool)
        ensures
            r == (self == PixelFormat::D3d11),
    {
        matches!(self, PixelFormat::D3d11)
    }

    /// Whether the two chroma components share one plane.
    pub fn is_semi_planar(self) -> (r: bool)
        ensures
            r == (self == PixelFormat::Nv12 || self == PixelFormat::P010Le),
    {
        matches!(self, PixelFormat::Nv12 | PixelFormat::P010Le)
    }
}

/// Scaled, the largest sample that a layout holds in a word fills the word: ten
/// bits at the bottom are stretched to sixteen, and nothing else is stretched.
pub proof fn law_samples_fill_their_range(f: PixelFormat)
    ensures
        f.scale().den > 0,
        f == PixelFormat::Yuv420p10le ==> 1023 * f.scale().num == 65535 * f.scale().den,
        f != PixelFormat::Yuv420p10le ==> f.scale().num == f.scale().den,
{
}

} // verus!
