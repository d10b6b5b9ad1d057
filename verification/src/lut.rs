//! The precomputed divide table for eight-bit channels, and the fast
//! per-pixel path that reads it.
//!
//! The table answers `value / alpha` in 8.8 fixed point for every pair of
//! eight-bit operands. The fast path divides by the dominant colour through
//! the table; it is an approximation of the exact transform of
//! `AbstractRGBAPixel::unmult_rgba` (it scales by 256 where the exact
//! transform scales by 255, and it does not zero a pixel without opacity),
//! kept beside it and not in place of it.

use vstd::prelude::*;
use crate::dominant::lemma_max3_u32;
use crate::dominant::max3;
use crate::channel::from_normalized_spec;
use crate::dominant::max3_level;
use crate::kernel::unmult_levels;
use crate::pixel::AbstractRGBAPixel;
use crate::pixel::ArgbPixel;
use crate::pixel::levels;

verus! {

/// The number of entries of the table: one for every pair of bytes.
pub const LUT_SIZE: usize = 65536;

/// The table's value for a divisor `alpha` and a dividend `value`: zero for
/// a zero divisor, else `value * 256 / alpha`, truncated, at most 255.
pub open spec fn lut_entry(alpha: nat, value: nat) -> nat {
    if alpha == 0 {
        0
    } else {
        let quotient = (value * 256) / alpha;
        if quotient > 255 {
            255
        } else {
            quotient
        }
    }
}

/// The place of a pair in the table: the divisor in the high byte, the
/// dividend in the low byte.
pub open spec fn lut_index(alpha: nat, value: nat) -> nat {
    alpha * 256 + value
}

/// Whether `table` holds, at every index, the entry of the pair that the
/// index stands for.
pub open spec fn is_divide_table(table: Seq<u8>) -> bool {
    &&& table.len() == LUT_SIZE
    &&& forall|i: int| 0 <= i < LUT_SIZE ==> #[trigger] table[i] as nat == lut_entry((i / 256) as nat, (i % 256) as nat)
}

/// The divide table. Its entries are fixed when it is built and every value
/// of this type holds the exact table.
pub struct DivideTable {
    entries: Vec<u8>,
}

impl DivideTable {
    #[verifier::type_invariant]
    spec fn exact(&self) -> bool {
        is_divide_table(self.entries@)
    }

    /// The entries by index.
    pub closed spec fn view(&self) -> Seq<u8> {
        self.entries@
    }

    /// The entry at `index`.
    pub fn get(&self, index: usize) -> (entry: u8)
        requires
            index < LUT_SIZE,
        ensures
            entry == self@[index as int],
            entry as nat == lut_entry((index / 256) as nat, (index % 256) as nat),
    {
        proof {
            use_type_invariant(self);
        }
        self.entries[index]
    }

    /// The entry for the divisor `alpha` and the dividend `value`.
    pub fn lookup(&self, alpha: u8, value: u8) -> (entry: u8)
        ensures
            entry == self@[lut_index(alpha as nat, value as nat) as int],
            entry as nat == lut_entry(alpha as nat, value as nat),
    {
        let index: usize = alpha as usize * 256 + value as usize;
        self.get(index)
    }
}

/// Builds the divide table.
pub fn get_lut() -> (lut: DivideTable)
    ensures
        is_divide_table(lut@),
{
    let mut entries: Vec<u8> = Vec::with_capacity(LUT_SIZE);
    let mut i: usize = 0;
    while i < LUT_SIZE
        invariant
            i <= LUT_SIZE,
            entries@.len() == i,
            forall|j: int| 0 <= j < i ==> #[trigger] entries@[j] as nat == lut_entry((j / 256) as nat, (j % 256) as nat),
        decreases LUT_SIZE - i,
    {
        let alpha: u32 = (i / 256) as u32;
        let value: u32 = (i % 256) as u32;
        let entry: u8 = if alpha == 0 {
            0
        } else {
            let quotient: u32 = (value * 256) / alpha;
            if quotient > 255 {
                255
            } else {
                quotient as u8
            }
        };
        entries.push(entry);
        i = i + 1;
    }
    DivideTable { entries }
}

/// In the table's index the divisor and the dividend are the two bytes of a
/// sixteen-bit number.
pub proof fn lemma_lut_index_bits(alpha: u8, value: u8)
    ensures
        lut_index(alpha as nat, value as nat) == ((alpha as u32) << 8) | (value as u32),
        lut_index(alpha as nat, value as nat) < LUT_SIZE,
{
    let a: u32 = alpha as u32;
    let v: u32 = value as u32;
    assert((a << 8) | v == a * 256 + v) by (bit_vector)
        requires
            a < 256,
            v < 256,
    ;
}

/// The levels that the fast path gives for an eight-bit pixel: each colour
/// divided by the dominant colour through the table, and alpha scaled by the
/// dominant colour in 8.8 fixed point.
pub open spec fn fast_unmult_levels(r: nat, g: nat, b: nat, a: nat) -> (nat, nat, nat, nat) {
    let m = max3_level(r, g, b);
    (lut_entry(m, r), lut_entry(m, g), lut_entry(m, b), (a * m) / 256)
}

/// Through the table a colour comes out as the exact transform gives it, or
/// one level above.
pub proof fn lemma_fast_colour_close(c: nat, m: nat)
    requires
        c <= m <= 255,
        0 < m,
    ensures
        from_normalized_spec(c, m, 255) <= lut_entry(m, c) <= from_normalized_spec(c, m, 255) + 1,
{
    let exact = (c * 255) / m;
    let fast = (c * 256) / m;
    assert(exact <= 255) by (nonlinear_arith)
        requires
            exact == (c * 255) / m,
            c <= m,
            0 < m,
    ;
    assert(exact <= fast <= exact + 1) by (nonlinear_arith)
        requires
            exact == (c * 255) / m,
            fast == (c * 256) / m,
            c <= m,
            0 < m,
    ;
}

/// On a pixel with some opacity the fast path is within one level of the
/// exact transform in every channel: each colour is the exact one or one
/// above, alpha the exact one or one below.
pub proof fn lemma_fast_path_close(r: nat, g: nat, b: nat, a: nat)
    requires
        r <= 255,
        g <= 255,
        b <= 255,
        0 < a <= 255,
    ensures
        ({
            let exact = unmult_levels(r, g, b, a, 255);
            let fast = fast_unmult_levels(r, g, b, a);
            &&& exact.0 <= fast.0 <= exact.0 + 1
            &&& exact.1 <= fast.1 <= exact.1 + 1
            &&& exact.2 <= fast.2 <= exact.2 + 1
            &&& fast.3 <= exact.3 <= fast.3 + 1
        }),
{
    let m = max3_level(r, g, b);
    if m > 0 {
        lemma_fast_colour_close(r, m);
        lemma_fast_colour_close(g, m);
        lemma_fast_colour_close(b, m);
        let t = m * a;
        assert(t <= 65025) by (nonlinear_arith)
            requires
                t == m * a,
                m <= 255,
                a <= 255,
        ;
        assert(a * m == t) by (nonlinear_arith)
            requires
                t == m * a,
        ;
        assert((t * 255) / 65025 == t / 255);
        assert(t / 256 <= t / 255 <= t / 256 + 1);
    }
}

/// The fast path for one eight-bit pixel: writes to `out_pixel` what the
/// table gives for `pixel`.
pub fn inner_render_2(lut: &DivideTable, pixel: &ArgbPixel<u8>, out_pixel: &mut ArgbPixel<u8>)
    ensures
        levels::<u8, ArgbPixel<u8>>(*final(out_pixel)) == fast_unmult_levels(
            levels::<u8, ArgbPixel<u8>>(*pixel).0,
            levels::<u8, ArgbPixel<u8>>(*pixel).1,
            levels::<u8, ArgbPixel<u8>>(*pixel).2,
            levels::<u8, ArgbPixel<u8>>(*pixel).3,
        ),
{
    let a: u8 = pixel.alpha();
    let r: u8 = pixel.red();
    let g: u8 = pixel.green();
    let b: u8 = pixel.blue();
    let max_rgb: u8 = max3(r, g, b);
    proof {
        lemma_max3_u32(r as u32, g as u32, b as u32);
        assert(a as u32 * max_rgb as u32 <= 255 * 255) by (nonlinear_arith)
            requires
                a <= 255,
                max_rgb <= 255,
        ;
    }
    let scaled: u32 = (a as u32 * max_rgb as u32) / 256;
    *out_pixel = ArgbPixel::new(
        lut.lookup(max_rgb, r),
        lut.lookup(max_rgb, g),
        lut.lookup(max_rgb, b),
        scaled as u8,
    );
}

} // verus!
