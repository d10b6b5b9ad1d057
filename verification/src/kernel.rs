//! The transform from premultiplied to straight alpha on channel levels:
//! what it gives, the same in the steps in which it is usually told, and the
//! laws it obeys.

use vstd::prelude::*;
use vstd::arithmetic::div_mod::lemma_div_multiples_vanish_quotient;
use crate::channel::from_normalized_spec;
use crate::dominant::max3;
use crate::dominant::max3_level;

verus! {

/// The straight-alpha, dominant-channel-normalized levels of a premultiplied
/// pixel with colour levels `r`, `g`, `b` and alpha level `a`, all in
/// `0..=scale`.
///
/// A pixel without opacity or without colour becomes the zero pixel.
/// Otherwise each colour is first scaled by the alpha ratio and then divided
/// by the largest of the three, so it ends as its ratio to the dominant
/// colour `m`; alpha becomes the dominant colour after the alpha scaling,
/// the ratio `(m / scale) * (a / scale)`. All four are stored by truncation.
pub open spec fn unmult_levels(r: nat, g: nat, b: nat, a: nat, scale: nat) -> (nat, nat, nat, nat) {
    let m = max3_level(r, g, b);
    if a == 0 || m == 0 {
        (0, 0, 0, 0)
    } else {
        (
            from_normalized_spec(r, m, scale),
            from_normalized_spec(g, m, scale),
            from_normalized_spec(b, m, scale),
            from_normalized_spec(m * a, scale * scale, scale),
        )
    }
}

/// The same levels, told step by step on exact ratios. The normalized
/// colours are scaled by the normalized alpha where alpha is below one, which
/// gives numerators over `scale * scale`; the largest of them is the
/// dominant magnitude; where it is positive each colour is divided by it and
/// stored, and the dominant magnitude itself is stored as alpha.
pub open spec fn unmult_levels_stepwise(r: nat, g: nat, b: nat, a: nat, scale: nat) -> (
    nat,
    nat,
    nat,
    nat,
) {
    if a == 0 {
        (0, 0, 0, 0)
    } else {
        let by = if a < scale {
            a
        } else {
            scale
        };
        let max_val = max3_level(r * by, g * by, b * by);
        if max_val == 0 {
            (0, 0, 0, 0)
        } else {
            (
                from_normalized_spec(r * by, max_val, scale),
                from_normalized_spec(g * by, max_val, scale),
                from_normalized_spec(b * by, max_val, scale),
                from_normalized_spec(max_val, scale * scale, scale),
            )
        }
    }
}

/// Scaling both terms of a ratio by the same positive factor does not
/// change the level it is stored as.
pub proof fn lemma_common_factor(num: nat, den: nat, by: nat, scale: nat)
    requires
        0 < den,
        0 < by,
    ensures
        from_normalized_spec(num * by, den * by, scale) == from_normalized_spec(num, den, scale),
{
    lemma_div_multiples_vanish_quotient(by as int, (num * scale) as int, den as int);
    assert((num * by) * scale == by * (num * scale)) by (nonlinear_arith);
    assert(den * by == by * den) by (nonlinear_arith);
}

/// The largest of three levels scaled by one factor is the largest level,
/// scaled.
pub proof fn lemma_max3_scaled(r: nat, g: nat, b: nat, by: nat)
    ensures
        max3_level(r * by, g * by, b * by) == max3_level(r, g, b) * by,
{
    assert(forall|x: nat, y: nat| x >= y ==> #[trigger] (x * by) >= #[trigger] (y * by))
        by (nonlinear_arith);
}

/// The step-by-step account and `unmult_levels` agree on every pixel whose
/// alpha is within full scale.
pub proof fn lemma_unmult_stepwise(r: nat, g: nat, b: nat, a: nat, scale: nat)
    requires
        0 < scale,
        a <= scale,
    ensures
        unmult_levels_stepwise(r, g, b, a, scale) == unmult_levels(r, g, b, a, scale),
{
    if a > 0 {
        let by = if a < scale {
            a
        } else {
            scale
        };
        let m = max3_level(r, g, b);
        assert(by == a);
        lemma_max3_scaled(r, g, b, by);
        assert(m == 0 ==> m * by == 0) by (nonlinear_arith);
        if m > 0 {
            assert(m * by > 0) by (nonlinear_arith)
                requires
                    m > 0,
                    by > 0,
            ;
            lemma_common_factor(r, m, by, scale);
            lemma_common_factor(g, m, by, scale);
            lemma_common_factor(b, m, by, scale);
        }
    }
}

/// The eight-bit transform on bare channel values, in the order red, green,
/// blue, alpha. It always answers.
pub fn unmult_rgba8(r: u8, g: u8, b: u8, a: u8) -> (out: Option<(u8, u8, u8, u8)>)
    ensures
        out matches Some(p) && (p.0 as nat, p.1 as nat, p.2 as nat, p.3 as nat) == unmult_levels(
            r as nat,
            g as nat,
            b as nat,
            a as nat,
            255,
        ),
{
    if a == 0 {
        return Some((0, 0, 0, 0));
    }
    let m: u8 = max3(r, g, b);
    if m == 0 {
        return Some((0, 0, 0, 0));
    }
    let red: u32 = (r as u32 * 255) / (m as u32);
    let green: u32 = (g as u32 * 255) / (m as u32);
    let blue: u32 = (b as u32 * 255) / (m as u32);
    proof {
        lemma_ratio_in_scale(r as nat, m as nat, 255);
        lemma_ratio_in_scale(g as nat, m as nat, 255);
        lemma_ratio_in_scale(b as nat, m as nat, 255);
        assert(m as u32 * a as u32 <= 255 * 255) by (nonlinear_arith)
            requires
                m <= 255,
                a <= 255,
        ;
    }
    let dominant: u32 = m as u32 * a as u32;
    let alpha: u32 = dominant / 255;
    assert(alpha == (dominant as nat * 255) / 65025);
    Some((red as u8, green as u8, blue as u8, alpha as u8))
}

/// A ratio of at most one is stored without saturation: it stays within
/// full scale.
pub proof fn lemma_ratio_in_scale(num: nat, den: nat, scale: nat)
    requires
        0 < den,
        num <= den,
    ensures
        (num * scale) / den <= scale,
        from_normalized_spec(num, den, scale) == (num * scale) / den,
        num == den ==> from_normalized_spec(num, den, scale) == scale,
{
    assert(num * scale <= den * scale) by (nonlinear_arith)
        requires
            num <= den,
    ;
    assert((num * scale) / den <= scale) by (nonlinear_arith)
        requires
            num * scale <= den * scale,
            0 < den,
    ;
    assert(num == den ==> (num * scale) / den == scale) by (nonlinear_arith)
        requires
            0 < den,
    ;
}

/// Without opacity every pixel becomes the zero pixel, whatever its colour
/// and whatever the channel representation.
pub proof fn lemma_unmult_zero_alpha(r: nat, g: nat, b: nat, scale: nat)
    ensures
        unmult_levels(r, g, b, 0, scale) == (0nat, 0nat, 0nat, 0nat),
{
}

/// Without colour every pixel becomes the zero pixel, whatever its alpha.
pub proof fn lemma_unmult_zero_colour(a: nat, scale: nat)
    ensures
        unmult_levels(0, 0, 0, a, scale) == (0nat, 0nat, 0nat, 0nat),
{
}

/// A pixel with some opacity whose dominant colour is already at full scale
/// is left as it is, whatever its alpha.
pub proof fn lemma_unmult_full_scale_fixed(r: nat, g: nat, b: nat, a: nat, scale: nat)
    requires
        0 < scale,
        r <= scale,
        g <= scale,
        b <= scale,
        0 < a <= scale,
        max3_level(r, g, b) == scale,
    ensures
        unmult_levels(r, g, b, a, scale) == (r, g, b, a),
{
    assert((r * scale) / scale == r) by (nonlinear_arith)
        requires
            0 < scale,
    ;
    assert((g * scale) / scale == g) by (nonlinear_arith)
        requires
            0 < scale,
    ;
    assert((b * scale) / scale == b) by (nonlinear_arith)
        requires
            0 < scale,
    ;
    assert(((scale * a) * scale) / (scale * scale) == a) by (nonlinear_arith)
        requires
            0 < scale,
    ;
}

/// The transform keeps every channel within full scale, and where the pixel
/// has opacity and colour its dominant colour ends at full scale.
pub proof fn lemma_unmult_normalized(r: nat, g: nat, b: nat, a: nat, scale: nat)
    requires
        0 < scale,
        r <= scale,
        g <= scale,
        b <= scale,
        a <= scale,
    ensures
        unmult_levels(r, g, b, a, scale).0 <= scale,
        unmult_levels(r, g, b, a, scale).1 <= scale,
        unmult_levels(r, g, b, a, scale).2 <= scale,
        unmult_levels(r, g, b, a, scale).3 <= scale,
        a > 0 && max3_level(r, g, b) > 0 ==> max3_level(
            unmult_levels(r, g, b, a, scale).0,
            unmult_levels(r, g, b, a, scale).1,
            unmult_levels(r, g, b, a, scale).2,
        ) == scale,
{
    let m = max3_level(r, g, b);
    if a > 0 && m > 0 {
        lemma_ratio_in_scale(r, m, scale);
        lemma_ratio_in_scale(g, m, scale);
        lemma_ratio_in_scale(b, m, scale);
    }
}

} // verus!
