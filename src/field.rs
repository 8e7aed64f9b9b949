//! Bit fields of an instruction word and sign extension of signed fields.

use vstd::arithmetic::power2::{lemma2_to64, lemma_pow2_pos, pow2};
use vstd::bits::{
    lemma_u32_low_bits_mask_is_mod, lemma_u32_pow2_no_overflow, lemma_u32_shl_is_mul,
    lemma_u32_shr_is_div,
};
use vstd::prelude::*;

verus! {

/// The `n`-bit field of `w` whose lowest bit is bit `lo`.
pub open spec fn field(w: u32, lo: nat, n: nat) -> nat {
    (w as nat / pow2(lo)) % pow2(n)
}

/// The signed value of an `n`-bit two's-complement field holding `raw`.
pub open spec fn sext(raw: nat, n: nat) -> int {
    if raw >= pow2((n - 1) as nat) {
        raw - pow2(n)
    } else {
        raw as int
    }
}

/// Reads the `n`-bit field of `w` that starts at bit `lo`.
pub fn extract(w: u32, lo: u32, n: u32) -> (r: u32)
    requires
        lo < 32,
        0 < n < 32,
    ensures
        r as nat == field(w, lo as nat, n as nat),
{
    proof {
        lemma_u32_shr_is_div(w, lo);
        lemma_u32_pow2_no_overflow(n as nat);
        lemma_u32_shl_is_mul(1u32, n);
        lemma_u32_low_bits_mask_is_mod(w >> lo, n as nat);
    }
    let mask: u32 = (1u32 << n) - 1;
    (w >> lo) & mask
}

/// Sign-extends the `width`-bit field value `raw` to a 32-bit signed integer.
pub fn sign_extend(raw: u32, width: u32) -> (r: i32)
    requires
        0 < width <= 32,
        raw < pow2(width as nat),
    ensures
        r == sext(raw as nat, width as nat),
{
    proof {
        lemma_u32_pow2_no_overflow((width - 1) as nat);
        lemma_u32_shl_is_mul(1u32, (width - 1) as u32);
        lemma_pow2_pos((width - 1) as nat);
        vstd::arithmetic::power2::lemma_pow2_unfold(width as nat);
        lemma2_to64();
    }
    let top: u32 = 1u32 << (width - 1);
    if raw >= top {
        let wide: i64 = raw as i64 - 2 * (top as i64);
        wide as i32
    } else {
        raw as i32
    }
}

/// A `w`-bit field encodes every integer of the signed `w`-bit range, the
/// largest and the smallest included, and sign extension gives it back.
pub proof fn lemma_sign_extend_round_trip(v: int, w: nat)
    requires
        0 < w <= 32,
        -pow2((w - 1) as nat) <= v < pow2((w - 1) as nat),
    ensures
        sext((v % pow2(w) as int) as nat, w) == v,
        sext((pow2((w - 1) as nat) - 1) as nat, w) == pow2((w - 1) as nat) - 1,
        sext(pow2((w - 1) as nat), w) == -pow2((w - 1) as nat),
{
    vstd::arithmetic::power2::lemma_pow2_unfold(w);
    lemma_pow2_pos((w - 1) as nat);
    let m = pow2(w) as int;
    if v < 0 {
        vstd::arithmetic::div_mod::lemma_fundamental_div_mod_converse(v, m, -1, v + m);
    } else {
        vstd::arithmetic::div_mod::lemma_small_mod(v as nat, m as nat);
    }
}

} // verus!
