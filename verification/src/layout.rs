//! How pixels lie in a byte buffer: four channels side by side, pixel after
//! pixel, with nothing between them.

use vstd::prelude::*;
use vstd::arithmetic::div_mod::lemma_fundamental_div_mod;
use vstd::arithmetic::div_mod::lemma_fundamental_div_mod_converse;
use crate::channel::PixelCompute;

verus! {

/// The number of bytes of one pixel.
pub open spec fn pixel_size<T: PixelCompute>() -> nat {
    4 * T::width_spec()
}

/// The bytes of one pixel with channels `c` (red, green, blue, alpha), with
/// alpha before or after the colours.
pub open spec fn channels_to_bytes<T: PixelCompute>(c: (T, T, T, T), alpha_first: bool) -> Seq<u8> {
    if alpha_first {
        c.3.to_bytes() + c.0.to_bytes() + c.1.to_bytes() + c.2.to_bytes()
    } else {
        c.0.to_bytes() + c.1.to_bytes() + c.2.to_bytes() + c.3.to_bytes()
    }
}

/// The channels (red, green, blue, alpha) that the bytes of one pixel hold.
pub open spec fn channels_of_bytes<T: PixelCompute>(bytes: Seq<u8>, alpha_first: bool) -> (
    T,
    T,
    T,
    T,
) {
    let w = T::width_spec() as int;
    let c0 = T::of_bytes(bytes.subrange(0, w));
    let c1 = T::of_bytes(bytes.subrange(w, 2 * w));
    let c2 = T::of_bytes(bytes.subrange(2 * w, 3 * w));
    let c3 = T::of_bytes(bytes.subrange(3 * w, 4 * w));
    if alpha_first {
        (c1, c2, c3, c0)
    } else {
        (c0, c1, c2, c3)
    }
}

/// The bytes of the pixel at position `k` of a buffer.
pub open spec fn pixel_chunk<T: PixelCompute>(bytes: Seq<u8>, k: int) -> Seq<u8> {
    bytes.subrange(k * pixel_size::<T>(), k * pixel_size::<T>() + pixel_size::<T>())
}

/// The channels of every pixel of a buffer, in buffer order. Bytes beyond
/// the last whole pixel are not looked at.
pub open spec fn decode_channels<T: PixelCompute>(bytes: Seq<u8>, alpha_first: bool) -> Seq<
    (T, T, T, T),
> {
    Seq::new(
        bytes.len() / pixel_size::<T>(),
        |k: int| channels_of_bytes::<T>(pixel_chunk::<T>(bytes, k), alpha_first),
    )
}

/// The buffer that holds pixels with the given channels, in order.
pub open spec fn encode_channels<T: PixelCompute>(
    pixels: Seq<(T, T, T, T)>,
    alpha_first: bool,
) -> Seq<u8> {
    Seq::new(
        pixels.len() * pixel_size::<T>(),
        |i: int|
            channels_to_bytes::<T>(pixels[i / (pixel_size::<T>() as int)], alpha_first)[i % (
            pixel_size::<T>() as int)],
    )
}

/// Byte `r` of pixel `k` is byte `k * size + r` of the buffer.
pub proof fn lemma_chunk_index(k: int, r: int, size: int)
    requires
        0 <= k,
        0 <= r < size,
    ensures
        0 <= k * size,
        k * size + size == (k + 1) * size,
        (k * size + r) / size == k,
        (k * size + r) % size == r,
{
    assert(0 <= k * size) by (nonlinear_arith)
        requires
            0 <= k,
            0 < size,
    ;
    assert(k * size + size == (k + 1) * size) by (nonlinear_arith);
    lemma_fundamental_div_mod_converse(k * size + r, size, k, r);
}

/// One pixel takes `pixel_size` bytes, and reading them gives the pixel's
/// channels.
pub proof fn lemma_channels_round_trip<T: PixelCompute>(c: (T, T, T, T), alpha_first: bool)
    ensures
        channels_to_bytes::<T>(c, alpha_first).len() == pixel_size::<T>(),
        channels_of_bytes::<T>(channels_to_bytes::<T>(c, alpha_first), alpha_first) == c,
{
    T::lemma_representation();
    c.0.lemma_to_bytes();
    c.1.lemma_to_bytes();
    c.2.lemma_to_bytes();
    c.3.lemma_to_bytes();
    let w = T::width_spec() as int;
    let bytes = channels_to_bytes::<T>(c, alpha_first);
    if alpha_first {
        assert(bytes.subrange(0, w) =~= c.3.to_bytes());
        assert(bytes.subrange(w, 2 * w) =~= c.0.to_bytes());
        assert(bytes.subrange(2 * w, 3 * w) =~= c.1.to_bytes());
        assert(bytes.subrange(3 * w, 4 * w) =~= c.2.to_bytes());
    } else {
        assert(bytes.subrange(0, w) =~= c.0.to_bytes());
        assert(bytes.subrange(w, 2 * w) =~= c.1.to_bytes());
        assert(bytes.subrange(2 * w, 3 * w) =~= c.2.to_bytes());
        assert(bytes.subrange(3 * w, 4 * w) =~= c.3.to_bytes());
    }
}

/// Writing out the channels read from the bytes of one pixel gives those
/// bytes.
pub proof fn lemma_bytes_round_trip<T: PixelCompute>(bytes: Seq<u8>, alpha_first: bool)
    requires
        bytes.len() == pixel_size::<T>(),
    ensures
        channels_to_bytes::<T>(channels_of_bytes::<T>(bytes, alpha_first), alpha_first) == bytes,
{
    T::lemma_representation();
    let w = T::width_spec() as int;
    T::lemma_of_bytes(bytes.subrange(0, w));
    T::lemma_of_bytes(bytes.subrange(w, 2 * w));
    T::lemma_of_bytes(bytes.subrange(2 * w, 3 * w));
    T::lemma_of_bytes(bytes.subrange(3 * w, 4 * w));
    assert(bytes.subrange(0, w) + bytes.subrange(w, 2 * w) + bytes.subrange(2 * w, 3 * w)
        + bytes.subrange(3 * w, 4 * w) =~= bytes);
}

/// Decoding a buffer of whole pixels and encoding the result reproduces the
/// buffer byte for byte.
pub proof fn lemma_decode_encode_channels<T: PixelCompute>(bytes: Seq<u8>, alpha_first: bool)
    requires
        bytes.len() % pixel_size::<T>() == 0,
    ensures
        encode_channels::<T>(decode_channels::<T>(bytes, alpha_first), alpha_first) == bytes,
{
    T::lemma_representation();
    let size = pixel_size::<T>() as int;
    let pixels = decode_channels::<T>(bytes, alpha_first);
    let again = encode_channels::<T>(pixels, alpha_first);
    lemma_fundamental_div_mod(bytes.len() as int, size);
    let count = bytes.len() as int / size;
    assert(pixels.len() == count);
    assert(size * count == count * size) by (nonlinear_arith);
    assert(again.len() == bytes.len());
    assert forall|i: int| 0 <= i < bytes.len() implies again[i] == bytes[i] by {
        let k = i / size;
        let r = i % size;
        lemma_fundamental_div_mod(i, size);
        assert(0 <= k < pixels.len()) by (nonlinear_arith)
            requires
                0 <= i < bytes.len(),
                0 < size,
                k == i / size,
                pixels.len() == bytes.len() as int / size,
                bytes.len() as int == size * (bytes.len() as int / size),
                i == size * k + r,
                0 <= r < size,
        ;
        assert(i == k * size + r) by (nonlinear_arith)
            requires
                i == size * k + r,
        ;
        assert(k * size + size <= bytes.len()) by (nonlinear_arith)
            requires
                k < pixels.len(),
                pixels.len() == bytes.len() as int / size,
                bytes.len() as int == size * (bytes.len() as int / size),
                0 < size,
        ;
        lemma_chunk_index(k, r, size);
        let chunk = pixel_chunk::<T>(bytes, k);
        lemma_bytes_round_trip::<T>(chunk, alpha_first);
        assert(chunk[r] == bytes[i]);
    }
    assert(again =~= bytes);
}

/// Encoding pixels and decoding the buffer gives the pixels back.
pub proof fn lemma_encode_decode_channels<T: PixelCompute>(
    pixels: Seq<(T, T, T, T)>,
    alpha_first: bool,
)
    ensures
        encode_channels::<T>(pixels, alpha_first).len() == pixels.len() * pixel_size::<T>(),
        decode_channels::<T>(encode_channels::<T>(pixels, alpha_first), alpha_first) == pixels,
{
    T::lemma_representation();
    let size = pixel_size::<T>() as int;
    let bytes = encode_channels::<T>(pixels, alpha_first);
    let again = decode_channels::<T>(bytes, alpha_first);
    assert((pixels.len() * size) / size == pixels.len()) by (nonlinear_arith)
        requires
            0 < size,
    ;
    assert(again.len() == pixels.len());
    assert forall|k: int| 0 <= k < pixels.len() implies again[k] == pixels[k] by {
        let chunk = pixel_chunk::<T>(bytes, k);
        let own = channels_to_bytes::<T>(pixels[k], alpha_first);
        lemma_channels_round_trip::<T>(pixels[k], alpha_first);
        lemma_chunk_index(k, 0, size);
        assert(k * size + size <= pixels.len() * size) by (nonlinear_arith)
            requires
                0 <= k < pixels.len(),
                0 < size,
        ;
        assert forall|r: int| 0 <= r < size implies chunk[r] == own[r] by {
            lemma_chunk_index(k, r, size);
        }
        assert(chunk =~= own);
    }
    assert(again =~= pixels);
}

} // verus!
