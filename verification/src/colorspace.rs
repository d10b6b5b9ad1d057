//! The linear exchange between red, green, blue and luma, chroma-blue,
//! chroma-red, in exact fixed point.
//!
//! The forward coefficients are written in millionths and the inverse
//! coefficients in thousandths, so a forward result counts millionths of its
//! input's unit and an inverse result thousandths. Nothing is rounded. The
//! two coefficient sets are not inverses of one another: a round trip comes
//! back close to where it started, not exactly there.

use vstd::prelude::*;
use crate::channel::PixelCompute;
use crate::channel::from_normalized_spec;
use crate::pixel::AbstractRGBAPixel;

verus! {

/// The forward coefficients count millionths.
pub const FORWARD_UNIT: i64 = 1_000_000;

/// The inverse coefficients count thousandths.
pub const INVERSE_UNIT: i64 = 1_000;

/// The largest magnitude of a component that the exchange takes.
pub const COMPONENT_LIMIT: i64 = 1_000_000_000_000;

/// Luma, in millionths: `0.299 r + 0.587 g + 0.114 b`.
pub open spec fn luma(r: int, g: int, b: int) -> int {
    299_000 * r + 587_000 * g + 114_000 * b
}

/// Chroma-blue, in millionths: `-0.168935 r - 0.331665 g + 0.50059 b`.
pub open spec fn chroma_u(r: int, g: int, b: int) -> int {
    -168_935 * r - 331_665 * g + 500_590 * b
}

/// Chroma-red, in millionths: `0.499813 r - 0.418531 g - 0.081282 b`.
pub open spec fn chroma_v(r: int, g: int, b: int) -> int {
    499_813 * r - 418_531 * g - 81_282 * b
}

/// Red, in thousandths: `y + 1.403 v`.
pub open spec fn red_of(y: int, u: int, v: int) -> int {
    1_000 * y + 1_403 * v
}

/// Green, in thousandths: `y - 0.344 u - 0.714 v`.
pub open spec fn green_of(y: int, u: int, v: int) -> int {
    1_000 * y - 344 * u - 714 * v
}

/// Blue, in thousandths: `y + 1.770 u`.
pub open spec fn blue_of(y: int, u: int, v: int) -> int {
    1_000 * y + 1_770 * u
}

/// Whether a component is within the magnitude that the exchange takes.
pub open spec fn in_limit(x: int) -> bool {
    -COMPONENT_LIMIT <= x <= COMPONENT_LIMIT
}

/// Luma, chroma-blue and chroma-red of a colour, each in millionths of the
/// colour's unit.
pub fn rgb_to_yuv(r: i64, g: i64, b: i64) -> (yuv: (i64, i64, i64))
    requires
        in_limit(r as int),
        in_limit(g as int),
        in_limit(b as int),
    ensures
        yuv.0 == luma(r as int, g as int, b as int),
        yuv.1 == chroma_u(r as int, g as int, b as int),
        yuv.2 == chroma_v(r as int, g as int, b as int),
{
    (
        299_000 * r + 587_000 * g + 114_000 * b,
        500_590 * b - 168_935 * r - 331_665 * g,
        499_813 * r - 418_531 * g - 81_282 * b,
    )
}

/// Red, green and blue of a luma and two chromas, each in thousandths of
/// their unit.
pub fn yuv_to_rgb(y: i64, u: i64, v: i64) -> (rgb: (i64, i64, i64))
    requires
        in_limit(y as int),
        in_limit(u as int),
        in_limit(v as int),
    ensures
        rgb.0 == red_of(y as int, u as int, v as int),
        rgb.1 == green_of(y as int, u as int, v as int),
        rgb.2 == blue_of(y as int, u as int, v as int),
{
    (1_000 * y + 1_403 * v, 1_000 * y - 344 * u - 714 * v, 1_000 * y + 1_770 * u)
}

/// A colour with components between zero and one comes back from the
/// round trip to luma and chroma with each component less than a thousandth
/// of one away from where it started. `one` is the value that stands for
/// one; the round trip counts in billionths of the colour's unit.
pub proof fn lemma_rgb_round_trip(r: int, g: int, b: int, one: int)
    requires
        0 < one,
        0 <= r <= one,
        0 <= g <= one,
        0 <= b <= one,
    ensures
        ({
            let y = luma(r, g, b);
            let u = chroma_u(r, g, b);
            let v = chroma_v(r, g, b);
            &&& -1_000_000 * one < red_of(y, u, v) - 1_000_000_000 * r < 1_000_000 * one
            &&& -1_000_000 * one < green_of(y, u, v) - 1_000_000_000 * g < 1_000_000 * one
            &&& -1_000_000 * one < blue_of(y, u, v) - 1_000_000_000 * b < 1_000_000 * one
        }),
{
}

/// Luma and chroma that come from a colour with components between zero and
/// one come back from the round trip to red, green and blue with each
/// component less than a thousandth of one away from where it started. The
/// round trip counts in billionths of the unit of `y`, `u` and `v`, which
/// are themselves millionths of the colour's unit.
pub proof fn lemma_yuv_round_trip(r: int, g: int, b: int, one: int)
    requires
        0 < one,
        0 <= r <= one,
        0 <= g <= one,
        0 <= b <= one,
    ensures
        ({
            let y = luma(r, g, b);
            let u = chroma_u(r, g, b);
            let v = chroma_v(r, g, b);
            let r2 = red_of(y, u, v);
            let g2 = green_of(y, u, v);
            let b2 = blue_of(y, u, v);
            let bound = 1_000_000 * (1_000_000 * one);
            &&& -bound < luma(r2, g2, b2) - 1_000_000_000 * y < bound
            &&& -bound < chroma_u(r2, g2, b2) - 1_000_000_000 * u < bound
            &&& -bound < chroma_v(r2, g2, b2) - 1_000_000_000 * v < bound
        }),
{
}

/// The level that stores a signed ratio `num / den` of full scale: what
/// lies below zero is stored as zero, what lies above one as full scale,
/// and what lies between is truncated toward zero.
pub open spec fn store_signed(num: int, den: nat, scale: nat) -> nat {
    if num <= 0 {
        0
    } else {
        from_normalized_spec(num as nat, den, scale)
    }
}

/// The luma, chroma-blue, chroma-red and alpha levels of a pixel with the
/// given red, green, blue and alpha levels. Alpha passes through.
pub open spec fn yuva_levels(r: nat, g: nat, b: nat, a: nat, scale: nat) -> (nat, nat, nat, nat) {
    let den = (FORWARD_UNIT * scale) as nat;
    (
        store_signed(luma(r as int, g as int, b as int), den, scale),
        store_signed(chroma_u(r as int, g as int, b as int), den, scale),
        store_signed(chroma_v(r as int, g as int, b as int), den, scale),
        a,
    )
}

/// The red, green, blue and alpha levels of a pixel with the given luma,
/// chroma-blue, chroma-red and alpha levels. Alpha passes through.
pub open spec fn rgba_levels(y: nat, u: nat, v: nat, a: nat, scale: nat) -> (nat, nat, nat, nat) {
    let den = (INVERSE_UNIT * scale) as nat;
    (
        store_signed(red_of(y as int, u as int, v as int), den, scale),
        store_signed(green_of(y as int, u as int, v as int), den, scale),
        store_signed(blue_of(y as int, u as int, v as int), den, scale),
        a,
    )
}

/// Stores a signed ratio in a channel.
fn store<T: PixelCompute>(num: i64, den: u64) -> (c: T)
    requires
        den > 0,
    ensures
        c.level() == store_signed(num as int, den as nat, T::scale_spec()),
{
    if num <= 0 {
        T::zero()
    } else {
        T::from_normalized(num as u64, den)
    }
}

/// A pixel of luma, chroma-blue, chroma-red and alpha channels of one
/// representation, in that order in memory.
#[derive(Debug, Default, PartialEq, Clone, Copy)]
pub struct YuvaPixel<T: PixelCompute> {
    y: T,
    u: T,
    v: T,
    alpha: T,
}

impl<T: PixelCompute> YuvaPixel<T> {
    /// The channels in the order luma, chroma-blue, chroma-red, alpha.
    pub closed spec fn channels(&self) -> (T, T, T, T) {
        (self.y, self.u, self.v, self.alpha)
    }

    /// The levels of the channels, in the same order.
    pub open spec fn levels(&self) -> (nat, nat, nat, nat) {
        let c = self.channels();
        (c.0.level(), c.1.level(), c.2.level(), c.3.level())
    }

    pub fn new(y: T, u: T, v: T, a: T) -> (p: Self)
        ensures
            p.channels() == (y, u, v, a),
    {
        Self { y, u, v, alpha: a }
    }

    pub fn get_y(&self) -> (c: T)
        ensures
            c == self.channels().0,
    {
        self.y
    }

    pub fn get_u(&self) -> (c: T)
        ensures
            c == self.channels().1,
    {
        self.u
    }

    pub fn get_v(&self) -> (c: T)
        ensures
            c == self.channels().2,
    {
        self.v
    }

    pub fn get_alpha(&self) -> (c: T)
        ensures
            c == self.channels().3,
    {
        self.alpha
    }

    /// The pixel whose four channels are at level zero.
    pub fn zero() -> (p: Self)
        ensures
            p.levels() == (0nat, 0nat, 0nat, 0nat),
    {
        Self { y: T::zero(), u: T::zero(), v: T::zero(), alpha: T::zero() }
    }

    /// A pixel is determined by its channels.
    pub proof fn lemma_channels(&self, other: &Self)
        requires
            self.channels() == other.channels(),
        ensures
            *self == *other,
    {
    }

    /// The luma and chroma form of a colour pixel.
    pub fn from_rgba<P: AbstractRGBAPixel<T>>(p: &P) -> (out: Self)
        ensures
            out.levels() == yuva_levels(
                p.channels().0.level(),
                p.channels().1.level(),
                p.channels().2.level(),
                p.channels().3.level(),
                T::scale_spec(),
            ),
    {
        proof {
            T::lemma_representation();
            p.channels().0.lemma_level_in_range();
            p.channels().1.lemma_level_in_range();
            p.channels().2.lemma_level_in_range();
        }
        let r: i64 = p.red().to_level() as i64;
        let g: i64 = p.green().to_level() as i64;
        let b: i64 = p.blue().to_level() as i64;
        let yuv = rgb_to_yuv(r, g, b);
        let den: u64 = 1_000_000 * (T::scale() as u64);
        Self::new(store::<T>(yuv.0, den), store::<T>(yuv.1, den), store::<T>(yuv.2, den), p.alpha())
    }

    /// The colour form of a luma and chroma pixel.
    pub fn to_rgba<P: AbstractRGBAPixel<T>>(&self) -> (out: P)
        ensures
            (
                out.channels().0.level(),
                out.channels().1.level(),
                out.channels().2.level(),
                out.channels().3.level(),
            ) == rgba_levels(
                self.levels().0,
                self.levels().1,
                self.levels().2,
                self.levels().3,
                T::scale_spec(),
            ),
    {
        proof {
            T::lemma_representation();
            self.channels().0.lemma_level_in_range();
            self.channels().1.lemma_level_in_range();
            self.channels().2.lemma_level_in_range();
        }
        let y: i64 = self.y.to_level() as i64;
        let u: i64 = self.u.to_level() as i64;
        let v: i64 = self.v.to_level() as i64;
        let rgb = yuv_to_rgb(y, u, v);
        let den: u64 = 1_000 * (T::scale() as u64);
        P::new(store::<T>(rgb.0, den), store::<T>(rgb.1, den), store::<T>(rgb.2, den), self.alpha)
    }
}

} // verus!
