//! Exact single-precision bit patterns for dyadic rationals.
//!
//! Genes are carried as raw 32-bit patterns of single-precision values, and
//! freshly drawn gene values (random initialisation, mutation) are taken
//! from an evenly spaced grid of dyadic rationals: magnitudes `m / GRID_UNIT`
//! with a power-of-two denominator. Every such magnitude up to six units fits
//! the single-precision format exactly, so the encoder below is exact and
//! fully verified, with no rounding anywhere.

use vstd::arithmetic::power2::{lemma2_to64, lemma_pow2_strictly_increases, lemma_pow2_unfold, pow2};
use vstd::bits::{lemma_u32_pow2_no_overflow, lemma_u32_shl_is_mul};
use vstd::prelude::*;

verus! {

/// Grid steps per unit of gene value; the denominator of every freshly
/// drawn dyadic gene magnitude.
pub const GRID_UNIT: u32 = 0x0010_0000;

/// Position of the highest set bit: the integer base-two logarithm.
pub open spec fn spec_log2(m: nat) -> nat
    decreases m,
{
    if m < 2 {
        0
    } else {
        1 + spec_log2(m / 2)
    }
}

/// The integer base-two logarithm names the power-of-two window holding `m`.
pub proof fn lemma_log2_bounds(m: nat)
    requires
        m >= 1,
    ensures
        pow2(spec_log2(m)) <= m < pow2(spec_log2(m) + 1),
    decreases m,
{
    if m < 2 {
        lemma2_to64();
    } else {
        let l = spec_log2(m / 2);
        lemma_log2_bounds(m / 2);
        lemma_pow2_unfold(l + 1);
        lemma_pow2_unfold(l + 2);
        assert(2 * (m / 2) <= m);
        assert(m <= 2 * (m / 2) + 1);
    }
}

/// A value below a power of two has its logarithm below the exponent.
pub proof fn lemma_log2_below(m: nat, e: nat)
    requires
        1 <= m,
        m < pow2(e),
    ensures
        spec_log2(m) < e,
{
    lemma_log2_bounds(m);
    if spec_log2(m) == e {
        assert(false);
    } else if spec_log2(m) > e {
        lemma_pow2_strictly_increases(e, spec_log2(m));
        assert(false);
    }
}

pub open spec fn spec_sign_bit(negative: bool) -> u32 {
    if negative {
        0x8000_0000u32
    } else {
        0u32
    }
}

/// The single-precision bit pattern of the value `m / GRID_UNIT`, negated
/// when `negative` holds. Defined for magnitudes up to six units, where the
/// grid point is exactly representable: the significand of `m` has at most
/// twenty-three bits below its leading one.
pub open spec fn spec_encode_dyadic(m: u32, negative: bool) -> u32 {
    if m == 0 {
        0u32
    } else {
        let h = spec_log2(m as nat) as u32;
        spec_sign_bit(negative) | (((107u32 + h) as u32) << 23u32) | (((m - (1u32 << h)) as u32)
            << ((23u32 - h) as u32))
    }
}

/// Exact encoder for grid magnitudes: normalises `m`, places the biased
/// exponent, and shifts the bits below the leading one into the significand
/// field. The zero magnitude encodes as the all-zero pattern whatever the
/// sign, as the engine never distinguishes the two signed zeros.
pub fn encode_dyadic(m: u32, negative: bool) -> (r: u32)
    requires
        m <= 6 * GRID_UNIT,
    ensures
        r == spec_encode_dyadic(m, negative),
{
    if m == 0 {
        return 0;
    }
    let ghost l = spec_log2(m as nat);
    proof {
        lemma2_to64();
        lemma_log2_below(m as nat, 23);
    }
    let mut h: u32 = 0;
    let mut t: u32 = m;
    while t >= 2
        invariant
            1 <= t,
            h as nat + spec_log2(t as nat) == l,
            l < 23,
        decreases t,
    {
        assert(spec_log2(t as nat) == 1 + spec_log2((t / 2) as nat));
        t = t / 2;
        h = h + 1;
    }
    proof {
        assert(spec_log2(t as nat) == 0);
        assert(h as nat == l);
        lemma_log2_bounds(m as nat);
        lemma_u32_pow2_no_overflow(h as nat);
        lemma_u32_shl_is_mul(1u32, h);
    }
    let powh: u32 = 1u32 << h;
    assert(powh <= m);
    let mantissa: u32 = (m - powh) << (23 - h);
    let exponent: u32 = (107 + h) << 23;
    let sign: u32 = if negative {
        0x8000_0000
    } else {
        0
    };
    sign | exponent | mantissa
}

} // verus!
