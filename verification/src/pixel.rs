//! Four-channel colour pixels in the two packed channel orders, and the
//! per-pixel transform from premultiplied to straight alpha.

use vstd::prelude::*;
use crate::channel::PixelCompute;
use crate::dominant::lemma_max3_u32;
use crate::dominant::max3;
use crate::error::ProcessingError;
use crate::kernel::lemma_unmult_normalized;
use crate::kernel::unmult_levels;
use crate::layout::channels_of_bytes;
use crate::layout::decode_channels;
use crate::layout::lemma_chunk_index;
use crate::layout::pixel_chunk;
use crate::layout::pixel_size;

verus! {

/// The levels of a pixel's channels in the order red, green, blue, alpha.
pub open spec fn levels<T: PixelCompute, P: AbstractRGBAPixel<T>>(p: P) -> (nat, nat, nat, nat) {
    let c = p.channels();
    (c.0.level(), c.1.level(), c.2.level(), c.3.level())
}

/// The levels that `unmult_rgba` gives for a pixel.
pub open spec fn unmult_pixel_levels<T: PixelCompute, P: AbstractRGBAPixel<T>>(p: P) -> (
    nat,
    nat,
    nat,
    nat,
) {
    let l = levels::<T, P>(p);
    unmult_levels(l.0, l.1, l.2, l.3, T::scale_spec())
}

/// The pixel that `unmult_rgba` gives for a pixel.
pub open spec fn unmult_pixel<T: PixelCompute, P: AbstractRGBAPixel<T>>(p: P) -> P {
    let l = unmult_pixel_levels::<T, P>(p);
    P::of_channels((T::of_level(l.0), T::of_level(l.1), T::of_level(l.2), T::of_level(l.3)))
}

/// A pixel of red, green, blue and alpha channels of one representation.
/// Implementations differ in the order in which the channels lie in memory.
pub trait AbstractRGBAPixel<T: PixelCompute>: Sized {
    /// The channels in the order red, green, blue, alpha.
    spec fn channels(&self) -> (T, T, T, T);

    /// The pixel with the given red, green, blue and alpha channels.
    spec fn of_channels(c: (T, T, T, T)) -> Self;

    /// Whether alpha lies before the colours in memory (else after them).
    spec fn alpha_first_spec() -> bool;

    /// A pixel is determined by its channels.
    proof fn lemma_channels(&self)
        ensures
            Self::of_channels(self.channels()) == *self,
    ;

    /// Any four channels make a pixel.
    proof fn lemma_of_channels(c: (T, T, T, T))
        ensures
            Self::of_channels(c).channels() == c,
    ;

    fn alpha_first() -> (first: bool)
        ensures
            first == Self::alpha_first_spec(),
    ;

    fn red(&self) -> (c: T)
        ensures
            c == self.channels().0,
    ;

    fn green(&self) -> (c: T)
        ensures
            c == self.channels().1,
    ;

    fn blue(&self) -> (c: T)
        ensures
            c == self.channels().2,
    ;

    fn alpha(&self) -> (c: T)
        ensures
            c == self.channels().3,
    ;

    fn new(r: T, g: T, b: T, a: T) -> (p: Self)
        ensures
            p.channels() == (r, g, b, a),
    ;

    /// The pixel whose four channels are at level zero.
    fn zero() -> (p: Self)
        ensures
            p.channels().0.level() == 0,
            p.channels().1.level() == 0,
            p.channels().2.level() == 0,
            p.channels().3.level() == 0,
    ;

    /// Turns a premultiplied pixel into its straight-alpha form, normalized
    /// to the dominant colour channel.
    fn unmult_rgba(&self) -> (out: Self)
        ensures
            (
                out.channels().0.level(),
                out.channels().1.level(),
                out.channels().2.level(),
                out.channels().3.level(),
            ) == unmult_levels(
                self.channels().0.level(),
                self.channels().1.level(),
                self.channels().2.level(),
                self.channels().3.level(),
                T::scale_spec(),
            ),
    {
        let a: u32 = self.alpha().to_level();
        if a == 0 {
            return Self::zero();
        }
        let r: u32 = self.red().to_level();
        let g: u32 = self.green().to_level();
        let b: u32 = self.blue().to_level();
        let m: u32 = max3(r, g, b);
        proof {
            lemma_max3_u32(r, g, b);
        }
        if m == 0 {
            return Self::zero();
        }
        let s: u32 = T::scale();
        proof {
            T::lemma_representation();
            self.channels().0.lemma_level_in_range();
            self.channels().1.lemma_level_in_range();
            self.channels().2.lemma_level_in_range();
            self.channels().3.lemma_level_in_range();
            assert(m as u64 * a as u64 <= 0xFFFF * 0xFFFF) by (nonlinear_arith)
                requires
                    m <= 0xFFFF,
                    a <= 0xFFFF,
            ;
            assert(s as u64 * s as u64 <= 0xFFFF * 0xFFFF) by (nonlinear_arith)
                requires
                    s <= 0xFFFF,
            ;
            assert(s as u64 * s as u64 > 0) by (nonlinear_arith)
                requires
                    s > 0,
            ;
        }
        let dominant: u64 = m as u64 * a as u64;
        let unit: u64 = s as u64 * s as u64;
        Self::new(
            T::from_normalized(r as u64, m as u64),
            T::from_normalized(g as u64, m as u64),
            T::from_normalized(b as u64, m as u64),
            T::from_normalized(dominant, unit),
        )
    }

    /// Reads a buffer as a sequence of pixels of this layout. A buffer whose
    /// length is not a whole number of pixels is refused before any byte is
    /// read.
    fn buffer_as_slice_from(data: &[u8]) -> (out: Result<Vec<Self>, ProcessingError>)
        ensures
            data@.len() % pixel_size::<T>() != 0 ==> (out matches Err(e) && e
                == ProcessingError::InvalidBufferSize),
            data@.len() % pixel_size::<T>() == 0 ==> (out matches Ok(pixels) && pixels@.map_values(
                |p: Self| p.channels(),
            ) == decode_channels::<T>(data@, Self::alpha_first_spec())),
    {
        let w: usize = T::width();
        proof {
            T::lemma_representation();
        }
        let size: usize = 4 * w;
        if data.len() % size != 0 {
            return Err(ProcessingError::InvalidBufferSize);
        }
        let count: usize = data.len() / size;
        let first: bool = Self::alpha_first();
        let mut pixels: Vec<Self> = Vec::with_capacity(count);
        let mut k: usize = 0;
        let mut at: usize = 0;
        assert(data@.len() == count * size) by (nonlinear_arith)
            requires
                data@.len() % (size as nat) == 0,
                count == data@.len() / (size as nat),
                size > 0,
        ;
        while k < count
            invariant
                w == T::width_spec(),
                1 <= w <= 2,
                size == 4 * w,
                data@.len() == count * size,
                data@.len() <= usize::MAX,
                k <= count,
                at == k * size,
                first == Self::alpha_first_spec(),
                pixels@.len() == k,
                forall|j: int|
                    0 <= j < k ==> (#[trigger] pixels@[j]).channels() == channels_of_bytes::<T>(
                        pixel_chunk::<T>(data@, j),
                        first,
                    ),
            decreases count - k,
        {
            proof {
                lemma_chunk_index(k as int, 0, size as int);
                assert(k * size + size <= count * size) by (nonlinear_arith)
                    requires
                        k < count,
                        0 < size,
                ;
                assert(at + size <= data@.len());
            }
            let c0 = T::read(data, at);
            let c1 = T::read(data, at + w);
            let c2 = T::read(data, at + 2 * w);
            let c3 = T::read(data, at + 3 * w);
            proof {
                let chunk = pixel_chunk::<T>(data@, k as int);
                assert(data@.subrange(at as int, at + w) =~= chunk.subrange(0, w as int));
                assert(data@.subrange(at + w, at + w + w) =~= chunk.subrange(w as int, 2 * w));
                assert(data@.subrange(at + 2 * w, at + 2 * w + w) =~= chunk.subrange(
                    2 * w,
                    3 * w,
                ));
                assert(data@.subrange(at + 3 * w, at + 3 * w + w) =~= chunk.subrange(
                    3 * w,
                    4 * w,
                ));
            }
            let p = if first {
                Self::new(c1, c2, c3, c0)
            } else {
                Self::new(c0, c1, c2, c3)
            };
            pixels.push(p);
            k = k + 1;
            at = at + size;
        }
        proof {
            assert((count * size) / (size as int) == count) by (nonlinear_arith)
                requires
                    0 < size,
            ;
            assert(pixels@.map_values(|p: Self| p.channels()) =~= decode_channels::<T>(
                data@,
                first,
            ));
        }
        Ok(pixels)
    }
}

/// A pixel whose channels lie in memory as red, green, blue, alpha.
#[derive(Debug, Default, PartialEq, Clone, Copy)]
pub struct RgbaPixel<T: PixelCompute> {
    red: T,
    green: T,
    blue: T,
    alpha: T,
}

/// A pixel whose channels lie in memory as alpha, red, green, blue.
#[derive(Debug, Default, PartialEq, Clone, Copy)]
pub struct ArgbPixel<T: PixelCompute> {
    alpha: T,
    red: T,
    green: T,
    blue: T,
}

impl<T: PixelCompute> AbstractRGBAPixel<T> for RgbaPixel<T> {
    closed spec fn channels(&self) -> (T, T, T, T) {
        (self.red, self.green, self.blue, self.alpha)
    }

    closed spec fn of_channels(c: (T, T, T, T)) -> Self {
        RgbaPixel { red: c.0, green: c.1, blue: c.2, alpha: c.3 }
    }

    open spec fn alpha_first_spec() -> bool {
        false
    }

    proof fn lemma_channels(&self) {
    }

    proof fn lemma_of_channels(c: (T, T, T, T)) {
    }

    fn alpha_first() -> (first: bool) {
        false
    }

    fn red(&self) -> (c: T) {
        self.red
    }

    fn green(&self) -> (c: T) {
        self.green
    }

    fn blue(&self) -> (c: T) {
        self.blue
    }

    fn alpha(&self) -> (c: T) {
        self.alpha
    }

    fn new(r: T, g: T, b: T, a: T) -> (p: Self) {
        Self { red: r, green: g, blue: b, alpha: a }
    }

    fn zero() -> (p: Self) {
        Self { red: T::zero(), green: T::zero(), blue: T::zero(), alpha: T::zero() }
    }
}

impl<T: PixelCompute> AbstractRGBAPixel<T> for ArgbPixel<T> {
    closed spec fn channels(&self) -> (T, T, T, T) {
        (self.red, self.green, self.blue, self.alpha)
    }

    closed spec fn of_channels(c: (T, T, T, T)) -> Self {
        ArgbPixel { alpha: c.3, red: c.0, green: c.1, blue: c.2 }
    }

    open spec fn alpha_first_spec() -> bool {
        true
    }

    proof fn lemma_channels(&self) {
    }

    proof fn lemma_of_channels(c: (T, T, T, T)) {
    }

    fn alpha_first() -> (first: bool) {
        true
    }

    fn red(&self) -> (c: T) {
        self.red
    }

    fn green(&self) -> (c: T) {
        self.green
    }

    fn blue(&self) -> (c: T) {
        self.blue
    }

    fn alpha(&self) -> (c: T) {
        self.alpha
    }

    fn new(r: T, g: T, b: T, a: T) -> (p: Self) {
        Self { red: r, green: g, blue: b, alpha: a }
    }

    fn zero() -> (p: Self) {
        Self { red: T::zero(), green: T::zero(), blue: T::zero(), alpha: T::zero() }
    }
}

/// The transform's result is one pixel: two pixels of one layout that carry
/// the levels it states are equal. With `lemma_unmult_full_scale_fixed` this
/// makes a pixel with opacity and a full-scale dominant colour a fixed point
/// of `unmult_rgba` itself.
pub proof fn lemma_pixel_by_levels<T: PixelCompute, P: AbstractRGBAPixel<T>>(p: P, q: P)
    requires
        levels::<T, P>(p) == levels::<T, P>(q),
    ensures
        p == q,
{
    p.channels().0.lemma_level_injective(q.channels().0);
    p.channels().1.lemma_level_injective(q.channels().1);
    p.channels().2.lemma_level_injective(q.channels().2);
    p.channels().3.lemma_level_injective(q.channels().3);
    p.lemma_channels();
    q.lemma_channels();
}

/// The pixel that carries the transform's levels is `unmult_pixel`.
pub proof fn lemma_unmult_pixel<T: PixelCompute, P: AbstractRGBAPixel<T>>(p: P, out: P)
    requires
        levels::<T, P>(out) == unmult_pixel_levels::<T, P>(p),
    ensures
        out == unmult_pixel::<T, P>(p),
{
    let l = unmult_pixel_levels::<T, P>(p);
    let c = p.channels();
    T::lemma_representation();
    c.0.lemma_level_in_range();
    c.1.lemma_level_in_range();
    c.2.lemma_level_in_range();
    c.3.lemma_level_in_range();
    lemma_unmult_normalized(c.0.level(), c.1.level(), c.2.level(), c.3.level(), T::scale_spec());
    T::lemma_of_level(l.0);
    T::lemma_of_level(l.1);
    T::lemma_of_level(l.2);
    T::lemma_of_level(l.3);
    let q = unmult_pixel::<T, P>(p);
    P::lemma_of_channels((T::of_level(l.0), T::of_level(l.1), T::of_level(l.2), T::of_level(l.3)));
    lemma_pixel_by_levels::<T, P>(out, q);
}

} // verus!
