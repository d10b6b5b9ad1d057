//! Channel values: the integer representations a colour channel can take,
//! their full-scale level, and the exchange with the normalized domain.
//!
//! A normalized quantity is an exact ratio `num / den` of full scale. Ratios
//! are never rounded on the way; the only inexact step is the final
//! truncation toward zero when a ratio is stored back into a channel.

use vstd::prelude::*;

verus! {

/// The level that stores the ratio `num / den` in a channel whose full scale
/// is `scale`: the ratio times the scale, truncated toward zero. Ratios above
/// one are not representable and saturate at full scale.
pub open spec fn from_normalized_spec(num: nat, den: nat, scale: nat) -> nat
    recommends
        den > 0,
{
    let level = (num * scale) / den;
    if level > scale {
        scale
    } else {
        level
    }
}

/// A level within full scale, taken as a ratio of full scale and stored
/// again, is the level itself: the exchange with the normalized domain loses
/// nothing on the way out and back.
pub proof fn lemma_normalized_round_trip(level: nat, scale: nat)
    requires
        0 < scale,
        level <= scale,
    ensures
        from_normalized_spec(level, scale, scale) == level,
{
    assert((level * scale) / scale == level) by (nonlinear_arith)
        requires
            0 < scale,
    ;
}

/// A channel representation: a fixed-width unsigned integer whose levels run
/// from zero to a full-scale value that stands for one.
pub trait PixelCompute: Copy + Sized {
    /// The level that stands for one (full intensity, full opacity).
    spec fn scale_spec() -> nat;

    /// The number of bytes one channel occupies in a buffer.
    spec fn width_spec() -> nat;

    /// The level a channel value holds.
    spec fn level(self) -> nat;

    /// The channel value that holds a level.
    spec fn of_level(level: nat) -> Self;

    /// The bytes of a channel value as they lie in a buffer.
    spec fn to_bytes(self) -> Seq<u8>;

    /// The channel value that a run of `width_spec()` bytes holds.
    spec fn of_bytes(bytes: Seq<u8>) -> Self;

    /// Channels are one or two bytes wide and full scale fits sixteen bits.
    proof fn lemma_representation()
        ensures
            1 <= Self::width_spec() <= 2,
            0 < Self::scale_spec() <= 0xFFFF,
    ;

    /// No value lies above full scale.
    proof fn lemma_level_in_range(self)
        ensures
            self.level() <= Self::scale_spec(),
    ;

    /// A value is determined by its level.
    proof fn lemma_level_injective(self, other: Self)
        requires
            self.level() == other.level(),
        ensures
            self == other,
    ;

    /// Every level up to full scale is the level of a value.
    proof fn lemma_of_level(level: nat)
        requires
            level <= Self::scale_spec(),
        ensures
            Self::of_level(level).level() == level,
    ;

    /// Writing a value out and reading it back gives the value.
    proof fn lemma_to_bytes(self)
        ensures
            self.to_bytes().len() == Self::width_spec(),
            Self::of_bytes(self.to_bytes()) == self,
    ;

    /// Reading a value and writing it out gives the bytes read.
    proof fn lemma_of_bytes(bytes: Seq<u8>)
        requires
            bytes.len() == Self::width_spec(),
        ensures
            Self::of_bytes(bytes).to_bytes() == bytes,
    ;

    /// The value of level zero.
    fn zero() -> (z: Self)
        ensures
            z.level() == 0,
    ;

    /// The full-scale level.
    fn scale() -> (s: u32)
        ensures
            s == Self::scale_spec(),
    ;

    /// The width of one channel in bytes.
    fn width() -> (w: usize)
        ensures
            w == Self::width_spec(),
    ;

    /// The level of this value; together with `scale()` it is the value's
    /// normalized ratio.
    fn to_level(self) -> (v: u32)
        ensures
            v == self.level(),
    ;

    /// The value as a ratio of full scale: its level over the scale.
    fn to_normalized(self) -> (ratio: (u64, u64))
        ensures
            ratio.0 == self.level(),
            ratio.1 == Self::scale_spec(),
    {
        (self.to_level() as u64, Self::scale() as u64)
    }

    /// Stores the ratio `num / den`, truncating toward zero.
    fn from_normalized(num: u64, den: u64) -> (c: Self)
        requires
            den > 0,
        ensures
            c.level() == from_normalized_spec(num as nat, den as nat, Self::scale_spec()),
    ;

    /// Reads the channel that starts at byte `at` of `data`.
    fn read(data: &[u8], at: usize) -> (c: Self)
        requires
            at + Self::width_spec() <= data@.len(),
        ensures
            c == Self::of_bytes(data@.subrange(at as int, at + Self::width_spec())),
    ;

    /// Appends the bytes of this channel to `out`.
    fn write(self, out: &mut Vec<u8>)
        ensures
            final(out)@ == old(out)@ + self.to_bytes(),
    ;
}

impl PixelCompute for u8 {
    open spec fn scale_spec() -> nat {
        255
    }

    open spec fn width_spec() -> nat {
        1
    }

    open spec fn level(self) -> nat {
        self as nat
    }

    open spec fn of_level(level: nat) -> u8 {
        level as u8
    }

    open spec fn to_bytes(self) -> Seq<u8> {
        seq![self]
    }

    open spec fn of_bytes(bytes: Seq<u8>) -> u8 {
        bytes[0]
    }

    proof fn lemma_representation() {
    }

    proof fn lemma_level_in_range(self) {
    }

    proof fn lemma_level_injective(self, other: u8) {
    }

    proof fn lemma_of_level(level: nat) {
    }

    proof fn lemma_to_bytes(self) {
    }

    proof fn lemma_of_bytes(bytes: Seq<u8>) {
        assert(seq![bytes[0]] =~= bytes);
    }

    fn zero() -> (z: u8) {
        0
    }

    fn scale() -> (s: u32) {
        255
    }

    fn width() -> (w: usize) {
        1
    }

    fn to_level(self) -> (v: u32) {
        self as u32
    }

    fn from_normalized(num: u64, den: u64) -> (c: u8) {
        let level: u128 = (num as u128 * 255u128) / (den as u128);
        if level > 255 {
            255
        } else {
            level as u8
        }
    }

    fn read(data: &[u8], at: usize) -> (c: u8) {
        data[at]
    }

    fn write(self, out: &mut Vec<u8>) {
        out.push(self);
        assert(out@ =~= old(out)@ + seq![self]);
    }
}

/// Sixteen-bit channels lie in a buffer low byte first.
impl PixelCompute for u16 {
    open spec fn scale_spec() -> nat {
        65535
    }

    open spec fn width_spec() -> nat {
        2
    }

    open spec fn level(self) -> nat {
        self as nat
    }

    open spec fn of_level(level: nat) -> u16 {
        level as u16
    }

    open spec fn to_bytes(self) -> Seq<u8> {
        seq![(self % 256) as u8, (self / 256) as u8]
    }

    open spec fn of_bytes(bytes: Seq<u8>) -> u16 {
        (bytes[0] as nat + 256 * (bytes[1] as nat)) as u16
    }

    proof fn lemma_representation() {
    }

    proof fn lemma_level_in_range(self) {
    }

    proof fn lemma_level_injective(self, other: u16) {
    }

    proof fn lemma_of_level(level: nat) {
    }

    proof fn lemma_to_bytes(self) {
    }

    proof fn lemma_of_bytes(bytes: Seq<u8>) {
        let v = Self::of_bytes(bytes);
        assert(v.to_bytes() =~= bytes);
    }

    fn zero() -> (z: u16) {
        0
    }

    fn scale() -> (s: u32) {
        65535
    }

    fn width() -> (w: usize) {
        2
    }

    fn to_level(self) -> (v: u32) {
        self as u32
    }

    fn from_normalized(num: u64, den: u64) -> (c: u16) {
        let level: u128 = (num as u128 * 65535u128) / (den as u128);
        if level > 65535 {
            65535
        } else {
            level as u16
        }
    }

    fn read(data: &[u8], at: usize) -> (c: u16) {
        let low: u16 = data[at] as u16;
        let high: u16 = data[at + 1] as u16;
        low + 256 * high
    }

    fn write(self, out: &mut Vec<u8>) {
        out.push((self % 256) as u8);
        out.push((self / 256) as u8);
        assert(out@ =~= old(out)@ + self.to_bytes());
    }
}

} // verus!
