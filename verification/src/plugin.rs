//! The effect as a host sees it: what it says of itself, which formats it
//! takes, and the render call.

use vstd::prelude::*;
use crate::error::ProcessingError;
use crate::format::PixelFormat;
use crate::pixel::ArgbPixel;
use crate::pixel::RgbaPixel;
use crate::render::lemma_unmult_bytes_pixelwise;
use crate::render::lemma_unmult_yuva_bytes_pixelwise;
use crate::render::unmult_buffer;
use crate::render::unmult_bytes;
use crate::render::unmult_yuva_buffer;
use crate::render::unmult_yuva_bytes;

verus! {

/// Whether a transform exists from buffers of one format to buffers of
/// another: both hold integer channels of the same width and the same colour
/// encoding. Only eight-bit colour buffers come in two channel orders, and a
/// call may take one and give the other. Floating-point buffers have no
/// transform here.
pub open spec fn format_pair_supported(in_format: PixelFormat, out_format: PixelFormat) -> bool {
    match (in_format, out_format) {
        (PixelFormat::Rgba8, PixelFormat::Rgba8) => true,
        (PixelFormat::Rgba8, PixelFormat::Argb8) => true,
        (PixelFormat::Argb8, PixelFormat::Rgba8) => true,
        (PixelFormat::Argb8, PixelFormat::Argb8) => true,
        (PixelFormat::Rgba16, PixelFormat::Rgba16) => true,
        (PixelFormat::Yuva8, PixelFormat::Yuva8) => true,
        _ => false,
    }
}

/// The output buffer of a render call on a supported pair of formats and an
/// input buffer of whole pixels.
pub open spec fn render_bytes(
    in_format: PixelFormat,
    out_format: PixelFormat,
    bytes: Seq<u8>,
) -> Seq<u8> {
    match (in_format, out_format) {
        (PixelFormat::Rgba8, PixelFormat::Rgba8) => unmult_bytes::<
            u8,
            RgbaPixel<u8>,
            RgbaPixel<u8>,
        >(bytes),
        (PixelFormat::Rgba8, PixelFormat::Argb8) => unmult_bytes::<
            u8,
            RgbaPixel<u8>,
            ArgbPixel<u8>,
        >(bytes),
        (PixelFormat::Argb8, PixelFormat::Rgba8) => unmult_bytes::<
            u8,
            ArgbPixel<u8>,
            RgbaPixel<u8>,
        >(bytes),
        (PixelFormat::Argb8, PixelFormat::Argb8) => unmult_bytes::<
            u8,
            ArgbPixel<u8>,
            ArgbPixel<u8>,
        >(bytes),
        (PixelFormat::Rgba16, PixelFormat::Rgba16) => unmult_bytes::<
            u16,
            RgbaPixel<u16>,
            RgbaPixel<u16>,
        >(bytes),
        (PixelFormat::Yuva8, PixelFormat::Yuva8) => unmult_yuva_bytes::<u8>(bytes),
        _ => bytes,
    }
}

/// Whether the buffers of a render call have the sizes the call needs: the
/// input is a whole number of pixels of its format and the output has the
/// input's length.
pub open spec fn render_sizes_fit(in_format: PixelFormat, input: Seq<u8>, output: Seq<u8>) -> bool {
    input.len() % in_format.pixel_size_spec() == 0 && output.len() == input.len()
}

/// What a render call answers and what it leaves in the output buffer.
///
/// A pair of formats without a transform is refused as unsupported; then
/// buffers of unfit sizes are refused as such; a refused call leaves the
/// output as it was. Every other call succeeds and leaves `render_bytes`.
pub open spec fn render_outcome(
    in_format: PixelFormat,
    out_format: PixelFormat,
    input: Seq<u8>,
    output: Seq<u8>,
) -> (Result<(), ProcessingError>, Seq<u8>) {
    if !format_pair_supported(in_format, out_format) {
        (Err(ProcessingError::UnsupportedFormat), output)
    } else if !render_sizes_fit(in_format, input, output) {
        (Err(ProcessingError::InvalidBufferSize), output)
    } else {
        (Ok(()), render_bytes(in_format, out_format, input))
    }
}

/// The formats that a render call takes on both sides, most preferred
/// first.
pub open spec fn preferred_formats() -> Seq<PixelFormat> {
    seq![PixelFormat::Argb8, PixelFormat::Rgba8, PixelFormat::Rgba16, PixelFormat::Yuva8]
}

/// Whether a transform exists for a pair of formats.
pub fn supports_format_pair(in_format: PixelFormat, out_format: PixelFormat) -> (supported: bool)
    ensures
        supported == format_pair_supported(in_format, out_format),
{
    match (in_format, out_format) {
        (PixelFormat::Rgba8, PixelFormat::Rgba8) => true,
        (PixelFormat::Rgba8, PixelFormat::Argb8) => true,
        (PixelFormat::Argb8, PixelFormat::Rgba8) => true,
        (PixelFormat::Argb8, PixelFormat::Argb8) => true,
        (PixelFormat::Rgba16, PixelFormat::Rgba16) => true,
        (PixelFormat::Yuva8, PixelFormat::Yuva8) => true,
        _ => false,
    }
}

/// A supported pair of formats has pixels of one size, and a render call on
/// a buffer of whole pixels gives a buffer of the same length.
pub proof fn lemma_render_bytes_len(in_format: PixelFormat, out_format: PixelFormat, bytes: Seq<u8>)
    requires
        format_pair_supported(in_format, out_format),
        bytes.len() % in_format.pixel_size_spec() == 0,
    ensures
        in_format.pixel_size_spec() == out_format.pixel_size_spec(),
        render_bytes(in_format, out_format, bytes).len() == bytes.len(),
{
    let size = in_format.pixel_size_spec() as int;
    let count = bytes.len() as int / size;
    assert(count * size == bytes.len()) by (nonlinear_arith)
        requires
            bytes.len() as int % size == 0,
            count == bytes.len() as int / size,
            size > 0,
    ;
}

/// The pixel at position `k` of a buffer of pixels of `size` bytes each.
pub open spec fn pixel_at(bytes: Seq<u8>, size: nat, k: int) -> Seq<u8> {
    bytes.subrange(k * size, k * size + size)
}

/// A render call transforms every pixel on its own: the pixel at position
/// `k` of the output is what a render call gives for the pixel at position
/// `k` of the input alone. Pieces of a buffer cut at pixel borders can so be
/// rendered apart, by separate workers, and put together.
pub proof fn lemma_render_bytes_pixelwise(
    in_format: PixelFormat,
    out_format: PixelFormat,
    bytes: Seq<u8>,
    k: int,
)
    requires
        format_pair_supported(in_format, out_format),
        bytes.len() % in_format.pixel_size_spec() == 0,
        0 <= k < bytes.len() / in_format.pixel_size_spec(),
    ensures
        pixel_at(render_bytes(in_format, out_format, bytes), out_format.pixel_size_spec(), k)
            == render_bytes(
            in_format,
            out_format,
            pixel_at(bytes, in_format.pixel_size_spec(), k),
        ),
{
    match (in_format, out_format) {
        (PixelFormat::Rgba8, PixelFormat::Rgba8) => {
            lemma_unmult_bytes_pixelwise::<u8, RgbaPixel<u8>, RgbaPixel<u8>>(bytes, k);
        },
        (PixelFormat::Rgba8, PixelFormat::Argb8) => {
            lemma_unmult_bytes_pixelwise::<u8, RgbaPixel<u8>, ArgbPixel<u8>>(bytes, k);
        },
        (PixelFormat::Argb8, PixelFormat::Rgba8) => {
            lemma_unmult_bytes_pixelwise::<u8, ArgbPixel<u8>, RgbaPixel<u8>>(bytes, k);
        },
        (PixelFormat::Argb8, PixelFormat::Argb8) => {
            lemma_unmult_bytes_pixelwise::<u8, ArgbPixel<u8>, ArgbPixel<u8>>(bytes, k);
        },
        (PixelFormat::Rgba16, PixelFormat::Rgba16) => {
            lemma_unmult_bytes_pixelwise::<u16, RgbaPixel<u16>, RgbaPixel<u16>>(bytes, k);
        },
        (PixelFormat::Yuva8, PixelFormat::Yuva8) => {
            lemma_unmult_yuva_bytes_pixelwise::<u8>(bytes, k);
        },
        _ => {},
    }
}

/// The effect. It holds no state: every render call stands alone.
#[derive(Debug, Default, Clone, Copy)]
pub struct Plugin {}

impl Plugin {
    /// The text that the effect shows about itself.
    pub fn about(&self) -> (text: &'static str)
        ensures
            text@ == "SDK_Noise v5.6\rCopyright 2007-2023 Adobe Inc.\rSimple noise effect."@,
    {
        "SDK_Noise v5.6\rCopyright 2007-2023 Adobe Inc.\rSimple noise effect."
    }

    /// The formats to declare to a host, most preferred first. Each of them
    /// is supported as the format of both buffers of a render call.
    pub fn supported_pixel_formats(&self) -> (formats: Vec<PixelFormat>)
        ensures
            formats@ == preferred_formats(),
            forall|i: int|
                0 <= i < formats@.len() ==> format_pair_supported(
                    #[trigger] formats@[i],
                    formats@[i],
                ),
    {
        let mut formats: Vec<PixelFormat> = Vec::with_capacity(4);
        formats.push(PixelFormat::Argb8);
        formats.push(PixelFormat::Rgba8);
        formats.push(PixelFormat::Rgba16);
        formats.push(PixelFormat::Yuva8);
        assert(formats@ =~= preferred_formats());
        formats
    }

    /// One render call: turns the premultiplied pixels of `in_buffer` into
    /// straight-alpha pixels in `out_buffer`.
    ///
    /// The formats are judged first and the sizes second; a refused call
    /// leaves `out_buffer` as it was.
    pub fn do_render(
        &self,
        in_pixel_format: PixelFormat,
        out_pixel_format: PixelFormat,
        in_buffer: &[u8],
        out_buffer: &mut Vec<u8>,
    ) -> (done: Result<(), ProcessingError>)
        ensures
            (done, final(out_buffer)@) == render_outcome(
                in_pixel_format,
                out_pixel_format,
                in_buffer@,
                old(out_buffer)@,
            ),
    {
        match (in_pixel_format, out_pixel_format) {
            (PixelFormat::Rgba8, PixelFormat::Rgba8) => unmult_buffer::<
                u8,
                RgbaPixel<u8>,
                RgbaPixel<u8>,
            >(in_buffer, out_buffer),
            (PixelFormat::Rgba8, PixelFormat::Argb8) => unmult_buffer::<
                u8,
                RgbaPixel<u8>,
                ArgbPixel<u8>,
            >(in_buffer, out_buffer),
            (PixelFormat::Argb8, PixelFormat::Rgba8) => unmult_buffer::<
                u8,
                ArgbPixel<u8>,
                RgbaPixel<u8>,
            >(in_buffer, out_buffer),
            (PixelFormat::Argb8, PixelFormat::Argb8) => unmult_buffer::<
                u8,
                ArgbPixel<u8>,
                ArgbPixel<u8>,
            >(in_buffer, out_buffer),
            (PixelFormat::Rgba16, PixelFormat::Rgba16) => unmult_buffer::<
                u16,
                RgbaPixel<u16>,
                RgbaPixel<u16>,
            >(in_buffer, out_buffer),
            (PixelFormat::Yuva8, PixelFormat::Yuva8) => unmult_yuva_buffer::<u8>(
                in_buffer,
                out_buffer,
            ),
            _ => Err(ProcessingError::UnsupportedFormat),
        }
    }
}

} // verus!
