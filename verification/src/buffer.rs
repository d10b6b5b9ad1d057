//! Whole buffers of pixels: what a buffer holds, how pixels are written back
//! to bytes, and the laws that tie reading to writing.

use vstd::prelude::*;
use crate::channel::PixelCompute;
use crate::layout::channels_to_bytes;
use crate::layout::decode_channels;
use crate::layout::encode_channels;
use crate::layout::lemma_channels_round_trip;
use crate::layout::lemma_chunk_index;
use crate::layout::lemma_decode_encode_channels;
use crate::layout::lemma_encode_decode_channels;
use crate::layout::pixel_size;
use crate::pixel::AbstractRGBAPixel;

verus! {

/// The channels of each pixel of a sequence.
pub open spec fn channels_of_pixels<T: PixelCompute, P: AbstractRGBAPixel<T>>(pixels: Seq<P>) -> Seq<
    (T, T, T, T),
> {
    pixels.map_values(|p: P| p.channels())
}

/// The pixels that a buffer holds, in buffer order.
pub open spec fn decode_pixels<T: PixelCompute, P: AbstractRGBAPixel<T>>(bytes: Seq<u8>) -> Seq<P> {
    decode_channels::<T>(bytes, P::alpha_first_spec()).map_values(
        |c: (T, T, T, T)| P::of_channels(c),
    )
}

/// The buffer that holds the given pixels, in order.
pub open spec fn encode_pixels<T: PixelCompute, P: AbstractRGBAPixel<T>>(pixels: Seq<P>) -> Seq<u8> {
    encode_channels::<T>(channels_of_pixels::<T, P>(pixels), P::alpha_first_spec())
}

/// Writes pixels to a fresh buffer, each in its layout's channel order.
pub fn buffers_from_pixels<T: PixelCompute, U: AbstractRGBAPixel<T>>(pixels: &[U]) -> (out: Vec<u8>)
    ensures
        out@ == encode_pixels::<T, U>(pixels@),
{
    let first: bool = U::alpha_first();
    let mut out: Vec<u8> = Vec::new();
    let mut k: usize = 0;
    let ghost size = pixel_size::<T>() as int;
    let ghost all = channels_of_pixels::<T, U>(pixels@);
    proof {
        T::lemma_representation();
    }
    while k < pixels.len()
        invariant
            k <= pixels@.len(),
            first == U::alpha_first_spec(),
            size == pixel_size::<T>(),
            0 < size,
            all == channels_of_pixels::<T, U>(pixels@),
            out@.len() == k * size,
            forall|i: int|
                0 <= i < out@.len() ==> #[trigger] out@[i] == channels_to_bytes::<T>(
                    all[i / size],
                    first,
                )[i % size],
        decreases pixels@.len() - k,
    {
        let p = &pixels[k];
        let r = p.red();
        let g = p.green();
        let b = p.blue();
        let a = p.alpha();
        let ghost before = out@;
        if first {
            a.write(&mut out);
            r.write(&mut out);
            g.write(&mut out);
            b.write(&mut out);
        } else {
            r.write(&mut out);
            g.write(&mut out);
            b.write(&mut out);
            a.write(&mut out);
        }
        proof {
            let own = channels_to_bytes::<T>(all[k as int], first);
            lemma_channels_round_trip::<T>(all[k as int], first);
            assert(out@ =~= before + own);
            lemma_chunk_index(k as int, 0, size);
            assert forall|i: int| 0 <= i < out@.len() implies #[trigger] out@[i]
                == channels_to_bytes::<T>(all[i / size], first)[i % size] by {
                if i >= before.len() {
                    lemma_chunk_index(k as int, i - before.len(), size);
                }
            }
        }
        k = k + 1;
    }
    proof {
        assert(out@ =~= encode_pixels::<T, U>(pixels@));
    }
    out
}

/// A sequence of pixels is the decoding of a buffer as soon as its channels
/// are the buffer's channels.
pub proof fn lemma_pixels_by_channels<T: PixelCompute, P: AbstractRGBAPixel<T>>(
    pixels: Seq<P>,
    bytes: Seq<u8>,
)
    requires
        channels_of_pixels::<T, P>(pixels) == decode_channels::<T>(bytes, P::alpha_first_spec()),
    ensures
        pixels == decode_pixels::<T, P>(bytes),
{
    let decoded = decode_pixels::<T, P>(bytes);
    assert(pixels.len() == channels_of_pixels::<T, P>(pixels).len());
    assert forall|k: int| 0 <= k < pixels.len() implies pixels[k] == decoded[k] by {
        pixels[k].lemma_channels();
        assert(channels_of_pixels::<T, P>(pixels)[k] == pixels[k].channels());
    }
    assert(pixels =~= decoded);
}

/// Decoding a buffer of whole pixels and encoding the pixels reproduces the
/// buffer byte for byte.
pub proof fn lemma_decode_encode<T: PixelCompute, P: AbstractRGBAPixel<T>>(bytes: Seq<u8>)
    requires
        bytes.len() % pixel_size::<T>() == 0,
    ensures
        encode_pixels::<T, P>(decode_pixels::<T, P>(bytes)) == bytes,
{
    let channels = decode_channels::<T>(bytes, P::alpha_first_spec());
    let pixels = decode_pixels::<T, P>(bytes);
    assert forall|k: int| 0 <= k < channels.len() implies channels_of_pixels::<T, P>(pixels)[k]
        == channels[k] by {
        P::lemma_of_channels(channels[k]);
    }
    assert(channels_of_pixels::<T, P>(pixels) =~= channels);
    lemma_decode_encode_channels::<T>(bytes, P::alpha_first_spec());
}

/// Encoding pixels gives a buffer of whole pixels, and decoding it gives the
/// pixels back.
pub proof fn lemma_encode_decode<T: PixelCompute, P: AbstractRGBAPixel<T>>(pixels: Seq<P>)
    ensures
        encode_pixels::<T, P>(pixels).len() == pixels.len() * pixel_size::<T>(),
        decode_pixels::<T, P>(encode_pixels::<T, P>(pixels)) == pixels,
{
    let channels = channels_of_pixels::<T, P>(pixels);
    lemma_encode_decode_channels::<T>(channels, P::alpha_first_spec());
    lemma_pixels_by_channels::<T, P>(pixels, encode_pixels::<T, P>(pixels));
}

} // verus!
