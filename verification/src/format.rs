//! The pixel formats a host can negotiate.

use vstd::prelude::*;

verus! {

/// A packed pixel format: the channel representation, the channel order and
/// the colour encoding of every pixel of a buffer.
#[derive(Debug, Clone, Copy, PartialEq, Eq, Structural)]
pub enum PixelFormat {
    /// Eight-bit channels in the order red, green, blue, alpha.
    Rgba8,
    /// Eight-bit channels in the order alpha, red, green, blue.
    Argb8,
    /// Sixteen-bit channels in the order red, green, blue, alpha.
    Rgba16,
    /// Floating-point channels in the order red, green, blue, alpha.
    RgbaF32,
    /// Eight-bit channels in the order luma, chroma-blue, chroma-red, alpha.
    Yuva8,
    /// Floating-point channels in the order luma, chroma-blue, chroma-red,
    /// alpha.
    YuvaF32,
}

impl PixelFormat {
    /// The number of bytes of one channel.
    pub open spec fn channel_width_spec(self) -> nat {
        match self {
            PixelFormat::Rgba8 | PixelFormat::Argb8 | PixelFormat::Yuva8 => 1,
            PixelFormat::Rgba16 => 2,
            PixelFormat::RgbaF32 | PixelFormat::YuvaF32 => 4,
        }
    }

    /// The number of bytes of one pixel: four channels.
    pub open spec fn pixel_size_spec(self) -> nat {
        4 * self.channel_width_spec()
    }

    /// Whether the channels are integers (else floating point).
    pub open spec fn is_integer_spec(self) -> bool {
        self != PixelFormat::RgbaF32 && self != PixelFormat::YuvaF32
    }

    /// Whether the pixel is luma and chroma (else red, green and blue).
    pub open spec fn is_chroma_spec(self) -> bool {
        self == PixelFormat::Yuva8 || self == PixelFormat::YuvaF32
    }

    pub fn pixel_size(self) -> (size: usize)
        ensures
            size == self.pixel_size_spec(),
    {
        match self {
            PixelFormat::Rgba8 | PixelFormat::Argb8 | PixelFormat::Yuva8 => 4,
            PixelFormat::Rgba16 => 8,
            PixelFormat::RgbaF32 | PixelFormat::YuvaF32 => 16,
        }
    }

    pub fn is_integer(self) -> (integer: bool)
        ensures
            integer == self.is_integer_spec(),
    {
        match self {
            PixelFormat::RgbaF32 | PixelFormat::YuvaF32 => false,
            _ => true,
        }
    }

    pub fn is_chroma(self) -> (chroma: bool)
        ensures
            chroma == self.is_chroma_spec(),
    {
        match self {
            PixelFormat::Yuva8 | PixelFormat::YuvaF32 => true,
            _ => false,
        }
    }
}

} // verus!
