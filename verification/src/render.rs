//! The transform of a whole buffer of pixels of one kind: every pixel on its
//! own, in buffer order, with nothing written unless all can be.

use vstd::prelude::*;
use crate::buffer::buffers_from_pixels;
use crate::buffer::channels_of_pixels;
use crate::buffer::decode_pixels;
use crate::buffer::encode_pixels;
use crate::buffer::lemma_encode_decode;
use crate::buffer::lemma_pixels_by_channels;
use crate::channel::PixelCompute;
use crate::colorspace::YuvaPixel;
use crate::colorspace::rgba_levels;
use crate::colorspace::yuva_levels;
use crate::error::ProcessingError;
use crate::kernel::lemma_unmult_normalized;
use crate::kernel::unmult_levels;
use crate::layout::decode_channels;
use crate::layout::encode_channels;
use crate::layout::lemma_chunk_index;
use crate::layout::pixel_chunk;
use crate::layout::pixel_size;
use crate::pixel::AbstractRGBAPixel;
use crate::pixel::RgbaPixel;
use crate::pixel::lemma_pixel_by_levels;
use crate::pixel::lemma_unmult_pixel;
use crate::pixel::levels;
use crate::pixel::unmult_pixel;

verus! {

/// A pixel in another layout: the same four channels.
pub open spec fn relayout<T: PixelCompute, A: AbstractRGBAPixel<T>, B: AbstractRGBAPixel<T>>(
    p: A,
) -> B {
    B::of_channels(p.channels())
}

/// The buffer of layout `B` that holds, pixel for pixel, the straight-alpha
/// form of the premultiplied pixels that `bytes` holds in layout `A`.
pub open spec fn unmult_bytes<T: PixelCompute, A: AbstractRGBAPixel<T>, B: AbstractRGBAPixel<T>>(
    bytes: Seq<u8>,
) -> Seq<u8> {
    encode_pixels::<T, B>(
        decode_pixels::<T, A>(bytes).map_values(
            |p: A| relayout::<T, A, B>(unmult_pixel::<T, A>(p)),
        ),
    )
}

/// Transforms a buffer of premultiplied pixels of layout `A` into `output`,
/// a buffer of the same length, as straight-alpha pixels of layout `B`.
/// Either every pixel is transformed or `output` is left untouched.
pub fn unmult_buffer<T: PixelCompute, A: AbstractRGBAPixel<T>, B: AbstractRGBAPixel<T>>(
    input: &[u8],
    output: &mut Vec<u8>,
) -> (done: Result<(), ProcessingError>)
    ensures
        buffers_fit::<T>(input@, old(output)@) ==> done == Ok::<(), ProcessingError>(())
            && final(output)@ == unmult_bytes::<T, A, B>(input@),
        !buffers_fit::<T>(input@, old(output)@) ==> done == Err::<(), ProcessingError>(
            ProcessingError::InvalidBufferSize,
        ) && final(output)@ == old(output)@,
{
    if output.len() != input.len() {
        return Err(ProcessingError::InvalidBufferSize);
    }
    let pixels: Vec<A> = match A::buffer_as_slice_from(input) {
        Ok(pixels) => pixels,
        Err(e) => {
            return Err(e);
        },
    };
    proof {
        lemma_pixels_by_channels::<T, A>(pixels@, input@);
    }
    let ghost wanted = decode_pixels::<T, A>(input@).map_values(
        |p: A| relayout::<T, A, B>(unmult_pixel::<T, A>(p)),
    );
    let mut straight: Vec<B> = Vec::with_capacity(pixels.len());
    let mut k: usize = 0;
    while k < pixels.len()
        invariant
            k <= pixels@.len(),
            pixels@ == decode_pixels::<T, A>(input@),
            wanted == decode_pixels::<T, A>(input@).map_values(
                |p: A| relayout::<T, A, B>(unmult_pixel::<T, A>(p)),
            ),
            straight@.len() == k,
            forall|j: int| 0 <= j < k ==> #[trigger] straight@[j] == wanted[j],
        decreases pixels@.len() - k,
    {
        let q: A = pixels[k].unmult_rgba();
        let moved: B = B::new(q.red(), q.green(), q.blue(), q.alpha());
        proof {
            lemma_unmult_pixel::<T, A>(pixels@[k as int], q);
            B::lemma_of_channels(q.channels());
            lemma_pixel_by_levels::<T, B>(moved, wanted[k as int]);
        }
        straight.push(moved);
        k = k + 1;
    }
    proof {
        assert(straight@ =~= wanted);
        lemma_encode_decode::<T, B>(straight@);
        lemma_whole_pixels::<T>(input@.len());
    }
    let bytes: Vec<u8> = buffers_from_pixels::<T, B>(straight.as_slice());
    overwrite(output, &bytes);
    Ok(())
}

/// Pixels are transformed independently: the pixel at position `k` of the
/// transformed buffer is the transform of the pixel at position `k` alone.
/// So any split of a buffer at pixel borders can be transformed piece by
/// piece, in any order or at once.
pub proof fn lemma_unmult_bytes_pixelwise<
    T: PixelCompute,
    A: AbstractRGBAPixel<T>,
    B: AbstractRGBAPixel<T>,
>(bytes: Seq<u8>, k: int)
    requires
        bytes.len() % pixel_size::<T>() == 0,
        0 <= k < bytes.len() / pixel_size::<T>(),
    ensures
        unmult_bytes::<T, A, B>(bytes).len() == bytes.len(),
        pixel_chunk::<T>(unmult_bytes::<T, A, B>(bytes), k) == unmult_bytes::<T, A, B>(
            pixel_chunk::<T>(bytes, k),
        ),
{
    T::lemma_representation();
    lemma_whole_pixels::<T>(bytes.len());
    let size = pixel_size::<T>() as int;
    let count = bytes.len() as int / size;
    let one = pixel_chunk::<T>(bytes, k);
    lemma_chunk_index(k, 0, size);
    assert(k * size + size <= count * size) by (nonlinear_arith)
        requires
            0 <= k < count,
            0 < size,
    ;
    assert(one.len() == size);
    assert(pixel_chunk::<T>(one, 0) =~= one);
    let all = decode_pixels::<T, A>(bytes).map_values(
        |p: A| relayout::<T, A, B>(unmult_pixel::<T, A>(p)),
    );
    let alone = decode_pixels::<T, A>(one).map_values(
        |p: A| relayout::<T, A, B>(unmult_pixel::<T, A>(p)),
    );
    assert(size / size == 1) by (nonlinear_arith)
        requires
            0 < size,
    ;
    assert(decode_pixels::<T, A>(one).len() == one.len() as int / size);
    assert(alone.len() == 1);
    assert(alone[0] == all[k]);
    let left = pixel_chunk::<T>(unmult_bytes::<T, A, B>(bytes), k);
    let right = unmult_bytes::<T, A, B>(one);
    assert(right.len() == size) by (nonlinear_arith)
        requires
            right.len() == alone.len() * size,
            alone.len() == 1,
    ;
    assert forall|r: int| 0 <= r < size implies left[r] == right[r] by {
        lemma_chunk_index(k, r, size);
        lemma_chunk_index(0, r, size);
        assert(channels_of_pixels::<T, B>(all)[k] == all[k].channels());
        assert(channels_of_pixels::<T, B>(alone)[0] == alone[0].channels());
    }
    assert(left =~= right);
}

/// Overwrites `output` with `bytes`, byte for byte, in place.
fn overwrite(output: &mut Vec<u8>, bytes: &Vec<u8>)
    requires
        old(output)@.len() == bytes@.len(),
    ensures
        final(output)@ == bytes@,
{
    let mut i: usize = 0;
    while i < bytes.len()
        invariant
            i <= bytes@.len(),
            output@.len() == bytes@.len(),
            forall|j: int| 0 <= j < i ==> output@[j] == bytes@[j],
        decreases bytes@.len() - i,
    {
        output[i] = bytes[i];
        i = i + 1;
    }
    assert(output@ =~= bytes@);
}

/// A length of whole pixels is the pixel count times the pixel size.
proof fn lemma_whole_pixels<T: PixelCompute>(len: nat)
    requires
        len % pixel_size::<T>() == 0,
    ensures
        (len / pixel_size::<T>()) * pixel_size::<T>() == len,
{
    T::lemma_representation();
    let size = pixel_size::<T>() as int;
    assert((len as int / size) * size == len) by (nonlinear_arith)
        requires
            len as int % size == 0,
            size > 0,
    ;
}

/// Whether an input and an output buffer can be transformed into one
/// another: the input is a whole number of pixels and the output has the
/// input's length.
pub open spec fn buffers_fit<T: PixelCompute>(input: Seq<u8>, output: Seq<u8>) -> bool {
    input.len() % pixel_size::<T>() == 0 && output.len() == input.len()
}

/// The luma, chroma and alpha levels of the straight-alpha form of a pixel
/// given by its luma, chroma and alpha levels: the pixel is taken to red,
/// green and blue, transformed there, and taken back.
pub open spec fn unmult_yuva_levels(y: nat, u: nat, v: nat, a: nat, scale: nat) -> (
    nat,
    nat,
    nat,
    nat,
) {
    let c = rgba_levels(y, u, v, a, scale);
    let s = unmult_levels(c.0, c.1, c.2, c.3, scale);
    yuva_levels(s.0, s.1, s.2, s.3, scale)
}

/// The same on channels (luma, chroma-blue, chroma-red, alpha).
pub open spec fn unmult_yuva_channels<T: PixelCompute>(c: (T, T, T, T)) -> (T, T, T, T) {
    let l = unmult_yuva_levels(
        c.0.level(),
        c.1.level(),
        c.2.level(),
        c.3.level(),
        T::scale_spec(),
    );
    (T::of_level(l.0), T::of_level(l.1), T::of_level(l.2), T::of_level(l.3))
}

/// The buffer that holds, pixel for pixel, the straight-alpha form of the
/// premultiplied luma and chroma pixels of `bytes`. Alpha lies last.
pub open spec fn unmult_yuva_bytes<T: PixelCompute>(bytes: Seq<u8>) -> Seq<u8> {
    encode_channels::<T>(
        decode_channels::<T>(bytes, false).map_values(
            |c: (T, T, T, T)| unmult_yuva_channels::<T>(c),
        ),
        false,
    )
}

/// Transforms a buffer of premultiplied luma and chroma pixels into
/// `output`, a buffer of the same length. Either every pixel is transformed
/// or `output` is left untouched.
pub fn unmult_yuva_buffer<T: PixelCompute>(input: &[u8], output: &mut Vec<u8>) -> (done: Result<
    (),
    ProcessingError,
>)
    ensures
        buffers_fit::<T>(input@, old(output)@) ==> done == Ok::<(), ProcessingError>(())
            && final(output)@ == unmult_yuva_bytes::<T>(input@),
        !buffers_fit::<T>(input@, old(output)@) ==> done == Err::<(), ProcessingError>(
            ProcessingError::InvalidBufferSize,
        ) && final(output)@ == old(output)@,
{
    if output.len() != input.len() {
        return Err(ProcessingError::InvalidBufferSize);
    }
    // a luma and chroma buffer is laid out as a colour buffer with alpha last
    let pixels: Vec<RgbaPixel<T>> = match RgbaPixel::<T>::buffer_as_slice_from(input) {
        Ok(pixels) => pixels,
        Err(e) => {
            return Err(e);
        },
    };
    let ghost read = decode_channels::<T>(input@, false);
    let ghost wanted = read.map_values(|c: (T, T, T, T)| unmult_yuva_channels::<T>(c));
    assert(channels_of_pixels::<T, RgbaPixel<T>>(pixels@) == read);
    let mut straight: Vec<RgbaPixel<T>> = Vec::with_capacity(pixels.len());
    let mut k: usize = 0;
    while k < pixels.len()
        invariant
            k <= pixels@.len(),
            read == decode_channels::<T>(input@, false),
            channels_of_pixels::<T, RgbaPixel<T>>(pixels@) == read,
            wanted == read.map_values(|c: (T, T, T, T)| unmult_yuva_channels::<T>(c)),
            straight@.len() == k,
            forall|j: int| 0 <= j < k ==> (#[trigger] straight@[j]).channels() == wanted[j],
        decreases pixels@.len() - k,
    {
        let raw = &pixels[k];
        let yuva: YuvaPixel<T> = YuvaPixel::new(raw.red(), raw.green(), raw.blue(), raw.alpha());
        let colour: RgbaPixel<T> = yuva.to_rgba();
        let plain: RgbaPixel<T> = colour.unmult_rgba();
        let back: YuvaPixel<T> = YuvaPixel::from_rgba(&plain);
        let moved: RgbaPixel<T> = RgbaPixel::new(
            back.get_y(),
            back.get_u(),
            back.get_v(),
            back.get_alpha(),
        );
        proof {
            let c = read[k as int];
            assert(channels_of_pixels::<T, RgbaPixel<T>>(pixels@)[k as int] == raw.channels());
            let l = unmult_yuva_levels(
                c.0.level(),
                c.1.level(),
                c.2.level(),
                c.3.level(),
                T::scale_spec(),
            );
            let w = wanted[k as int];
            let m = moved.channels();
            assert(levels::<T, RgbaPixel<T>>(moved) == l);
            T::lemma_representation();
            let cl = levels::<T, RgbaPixel<T>>(colour);
            colour.channels().3.lemma_level_in_range();
            colour.channels().0.lemma_level_in_range();
            colour.channels().1.lemma_level_in_range();
            colour.channels().2.lemma_level_in_range();
            lemma_unmult_normalized(cl.0, cl.1, cl.2, cl.3, T::scale_spec());
            T::lemma_of_level(l.0);
            T::lemma_of_level(l.1);
            T::lemma_of_level(l.2);
            T::lemma_of_level(l.3);
            m.0.lemma_level_injective(w.0);
            m.1.lemma_level_injective(w.1);
            m.2.lemma_level_injective(w.2);
            m.3.lemma_level_injective(w.3);
        }
        straight.push(moved);
        k = k + 1;
    }
    proof {
        assert(channels_of_pixels::<T, RgbaPixel<T>>(straight@) =~= wanted);
        lemma_encode_decode::<T, RgbaPixel<T>>(straight@);
        lemma_whole_pixels::<T>(input@.len());
    }
    let bytes: Vec<u8> = buffers_from_pixels::<T, RgbaPixel<T>>(straight.as_slice());
    overwrite(output, &bytes);
    Ok(())
}

/// Luma and chroma pixels are transformed independently too: the pixel at
/// position `k` of the transformed buffer is the transform of the pixel at
/// position `k` alone.
pub proof fn lemma_unmult_yuva_bytes_pixelwise<T: PixelCompute>(bytes: Seq<u8>, k: int)
    requires
        bytes.len() % pixel_size::<T>() == 0,
        0 <= k < bytes.len() / pixel_size::<T>(),
    ensures
        unmult_yuva_bytes::<T>(bytes).len() == bytes.len(),
        pixel_chunk::<T>(unmult_yuva_bytes::<T>(bytes), k) == unmult_yuva_bytes::<T>(
            pixel_chunk::<T>(bytes, k),
        ),
{
    T::lemma_representation();
    lemma_whole_pixels::<T>(bytes.len());
    let size = pixel_size::<T>() as int;
    let count = bytes.len() as int / size;
    let one = pixel_chunk::<T>(bytes, k);
    lemma_chunk_index(k, 0, size);
    assert(k * size + size <= count * size) by (nonlinear_arith)
        requires
            0 <= k < count,
            0 < size,
    ;
    assert(one.len() == size);
    assert(pixel_chunk::<T>(one, 0) =~= one);
    assert(size / size == 1) by (nonlinear_arith)
        requires
            0 < size,
    ;
    let all = decode_channels::<T>(bytes, false).map_values(
        |c: (T, T, T, T)| unmult_yuva_channels::<T>(c),
    );
    let alone = decode_channels::<T>(one, false).map_values(
        |c: (T, T, T, T)| unmult_yuva_channels::<T>(c),
    );
    assert(decode_channels::<T>(one, false).len() == one.len() as int / size);
    assert(alone.len() == 1);
    assert(alone[0] == all[k]);
    let left = pixel_chunk::<T>(unmult_yuva_bytes::<T>(bytes), k);
    let right = unmult_yuva_bytes::<T>(one);
    assert(right.len() == size) by (nonlinear_arith)
        requires
            right.len() == alone.len() * size,
            alone.len() == 1,
    ;
    assert forall|r: int| 0 <= r < size implies left[r] == right[r] by {
        lemma_chunk_index(k, r, size);
        lemma_chunk_index(0, r, size);
    }
    assert(left =~= right);
}

} // verus!
