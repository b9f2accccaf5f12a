//! The limited-range BT.601 transform from one YUV sample triple to RGB.
//!
//! The transform is defined over IEEE 754 single precision: every product, sum
//! and difference is rounded to the nearest single, ties to even, and the clamped
//! result is truncated to a byte. All values that occur are whole multiples of
//! `2^-25`, so the module computes with integers that count such steps. A single
//! carries 24 significant bits, which makes rounding a matter of integer division.

use vstd::arithmetic::div_mod::{
    lemma_div_by_multiple, lemma_div_denominator, lemma_fundamental_div_mod,
    lemma_mod_multiples_basic,
};
use vstd::prelude::*;

verus! {

/// Number of grid steps in `1.0`: the grid step is `2^-25`.
pub const GRID: i64 = 0x200_0000;

/// First magnitude that no longer fits the 24 significant bits of a single.
pub const SIGNIFICAND_LIMIT: u64 = 0x100_0000;

/// Largest magnitude, in grid steps, that [`round_to_single`] accepts.
pub const ROUND_LIMIT: i64 = 0x100_0000_0000;

/// The single nearest to `1.164`, in grid steps.
pub const LUMA_GAIN: i64 = 39057360;

/// The single nearest to `1.596`, in grid steps.
pub const RED_FROM_V: i64 = 53552872;

/// The single nearest to `0.392`, in grid steps.
pub const GREEN_FROM_U: i64 = 13153337;

/// The single nearest to `0.813`, in grid steps.
pub const GREEN_FROM_V: i64 = 27279754;

/// The single nearest to `2.017`, in grid steps.
pub const BLUE_FROM_U: i64 = 67679288;

/// Distance between neighbouring singles around the magnitude `m`, in grid steps:
/// the power of two that leaves `m` with 24 significant bits.
pub open spec fn single_spacing(m: int) -> int
    decreases m,
{
    if m < SIGNIFICAND_LIMIT {
        1
    } else {
        2 * single_spacing(m / 2)
    }
}

/// The multiple of `single_spacing(m)` nearest to the magnitude `m`; of two
/// equally near, the even multiple.
pub open spec fn nearest_single_magnitude(m: int) -> int {
    let u = single_spacing(m);
    let q = m / u;
    let r = m % u;
    if 2 * r < u || (2 * r == u && q % 2 == 0) {
        q * u
    } else {
        (q + 1) * u
    }
}

/// The single nearest to `n` grid steps, ties to even; rounding is symmetric
/// about zero.
pub open spec fn nearest_single(n: int) -> int {
    if n < 0 {
        -nearest_single_magnitude(-n)
    } else {
        nearest_single_magnitude(n)
    }
}

/// A value in grid steps clamped to `0.0 ..= 255.0` and truncated to a byte.
pub open spec fn clamped_byte(n: int) -> int {
    if n <= 0 {
        0
    } else if n >= 255 * GRID {
        255
    } else {
        n / (GRID as int)
    }
}

/// `C = (Y - 16) * 1.164`, in grid steps.
pub open spec fn luma_term(y: int) -> int {
    nearest_single((y - 16) * LUMA_GAIN)
}

/// `R = clamp(C + 1.596 * E)` with `E = V - 128`.
pub open spec fn red(y: int, v: int) -> int {
    clamped_byte(nearest_single(luma_term(y) + nearest_single(RED_FROM_V * (v - 128))))
}

/// `G = clamp(C - 0.392 * D - 0.813 * E)` with `D = U - 128` and `E = V - 128`,
/// the subtractions taken from left to right.
pub open spec fn green(y: int, u: int, v: int) -> int {
    clamped_byte(
        nearest_single(
            nearest_single(luma_term(y) - nearest_single(GREEN_FROM_U * (u - 128)))
                - nearest_single(GREEN_FROM_V * (v - 128)),
        ),
    )
}

/// `B = clamp(C + 2.017 * D)` with `D = U - 128`.
pub open spec fn blue(y: int, u: int) -> int {
    clamped_byte(nearest_single(luma_term(y) + nearest_single(BLUE_FROM_U * (u - 128))))
}

/// The spacing is positive, and a magnitude measured in it keeps at most 24 bits,
/// exactly 24 once it has left the exact range.
pub proof fn lemma_single_spacing(m: int)
    requires
        0 <= m,
    ensures
        1 <= single_spacing(m),
        m / single_spacing(m) < SIGNIFICAND_LIMIT,
        m >= SIGNIFICAND_LIMIT ==> 2 * (m / single_spacing(m)) >= SIGNIFICAND_LIMIT,
        m < SIGNIFICAND_LIMIT ==> single_spacing(m) == 1,
    decreases m,
{
    if m >= SIGNIFICAND_LIMIT {
        let h = m / 2;
        lemma_single_spacing(h);
        let u = single_spacing(h);
        lemma_div_denominator(m, 2, u);
    }
}

/// Rounding moves a magnitude by at most half a spacing, lands on a multiple of
/// the spacing, and settles a tie on the even multiple.
pub proof fn lemma_nearest_single_magnitude(m: int)
    requires
        0 <= m,
    ensures
        ({
            let u = single_spacing(m);
            let r = nearest_single_magnitude(m);
            &&& r % u == 0
            &&& 2 * (r - m) <= u
            &&& 2 * (m - r) <= u
            &&& (2 * (r - m) == u || 2 * (m - r) == u) ==> (r / u) % 2 == 0
        }),
{
    let u = single_spacing(m);
    lemma_single_spacing(m);
    let q = m / u;
    lemma_fundamental_div_mod(m, u);
    lemma_mod_multiples_basic(q, u);
    lemma_mod_multiples_basic(q + 1, u);
    lemma_div_by_multiple(q, u);
    lemma_div_by_multiple(q + 1, u);
    assert((q + 1) * u == q * u + u && u * q == q * u) by (nonlinear_arith);
}

/// Rounds `n` grid steps to the nearest single, ties to even.
pub fn round_to_single(n: i64) -> (r: i64)
    requires
        -ROUND_LIMIT < n < ROUND_LIMIT,
    ensures
        r == nearest_single(n as int),
        n >= 0 ==> 0 <= r <= 2 * n,
        n <= 0 ==> 2 * n <= r <= 0,
{
    let m: u64 = if n < 0 {
        (-n) as u64
    } else {
        n as u64
    };
    let mut u: u64 = 1;
    while m / u >= SIGNIFICAND_LIMIT
        invariant
            m < ROUND_LIMIT,
            1 <= u,
            u == 1 || u * 0x80_0000 <= m,
            single_spacing(m as int) == u * single_spacing(m as int / u as int),
        decreases m - u,
    {
        proof {
            let mi = m as int;
            let ui = u as int;
            lemma_fundamental_div_mod(mi, ui);
            assert(ui * 0x100_0000 <= mi) by (nonlinear_arith)
                requires
                    mi == ui * (mi / ui) + mi % ui,
                    0 <= mi % ui,
                    mi / ui >= 0x100_0000,
                    ui >= 1,
            ;
            lemma_div_denominator(mi, ui, 2);
            assert(ui * (2 * single_spacing(mi / ui / 2)) == (ui * 2) * single_spacing(
                mi / ui / 2,
            )) by (nonlinear_arith);
        }
        u = u * 2;
    }
    let q: u64 = m / u;
    let rest: u64 = m % u;
    proof {
        lemma_fundamental_div_mod(m as int, u as int);
        assert(q * u <= m && (q + 1) * u <= m + u && u * q == q * u) by (nonlinear_arith)
            requires
                m == u * q + rest,
                0 <= rest < u,
        ;
        assert(u <= m || rest == 0);
    }
    let rounded: u64 = if 2 * rest < u || (2 * rest == u && q % 2 == 0) {
        q * u
    } else {
        (q + 1) * u
    };
    if n < 0 {
        -(rounded as i64)
    } else {
        rounded as i64
    }
}

/// Clamps a value in grid steps to `0.0 ..= 255.0` and drops its fraction.
pub fn to_byte(n: i64) -> (b: u8)
    ensures
        b == clamped_byte(n as int),
{
    if n <= 0 {
        0
    } else if n >= 255 * GRID {
        255
    } else {
        (n / GRID) as u8
    }
}

/// Converts one sample triple to `(R, G, B)`.
pub fn yuv_to_rgb(y: u8, u: u8, v: u8) -> (rgb: (u8, u8, u8))
    ensures
        rgb.0 == red(y as int, v as int),
        rgb.1 == green(y as int, u as int, v as int),
        rgb.2 == blue(y as int, u as int),
{
    let c: i64 = round_to_single((y as i64 - 16) * LUMA_GAIN);
    let d: i64 = u as i64 - 128;
    let e: i64 = v as i64 - 128;
    let r: i64 = round_to_single(c + round_to_single(RED_FROM_V * e));
    let g_u: i64 = round_to_single(c - round_to_single(GREEN_FROM_U * d));
    let g: i64 = round_to_single(g_u - round_to_single(GREEN_FROM_V * e));
    let b: i64 = round_to_single(c + round_to_single(BLUE_FROM_U * d));
    (to_byte(r), to_byte(g), to_byte(b))
}

} // verus!
