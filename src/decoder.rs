//! Rounding of decrypted plaintexts back to messages.

use vstd::prelude::*;
use vstd::arithmetic::power2::pow2;
use crate::accumulator::word_modulus;

verus! {

/// The number of low bits of a word that a decomposition with `base_log` bits per level
/// and `level_count` levels cannot represent.
pub open spec fn non_representable_bits(base_log: nat, level_count: nat) -> nat {
    (64 - base_log * level_count) as nat
}

/// The multiple of `2^n` nearest to `x` (halves round up), modulo 2^64.
pub open spec fn closest_multiple(x: u64, n: nat) -> u64
    recommends
        n > 0,
{
    (((x as nat + pow2((n - 1) as nat)) / pow2(n) * pow2(n)) % word_modulus()) as u64
}

/// The decomposition parameters that a decoder accepts: at least one and fewer than 64
/// significant bits.
pub open spec fn decomposition_ok(base_log: nat, level_count: nat) -> bool {
    0 < base_log * level_count < 64
}

/// Rounds `input` to the closest value that a decomposition with `base_log` bits per level
/// and `level_count` levels represents: the multiple of `2^(64 - base_log * level_count)`
/// nearest to it, halves rounding up, wrapping to zero past the largest word.
pub fn closest_representable(input: u64, base_log: usize, level_count: usize) -> (r: u64)
    requires
        decomposition_ok(base_log as nat, level_count as nat),
    ensures
        r == closest_multiple(input, non_representable_bits(base_log as nat, level_count as nat)),
{
    let n: u64 = 64 - (base_log * level_count) as u64;
    proof {
        vstd::bits::lemma_u64_pow2_no_overflow(n as nat);
        vstd::bits::lemma_u64_shl_is_mul(1, n);
        vstd::arithmetic::power2::lemma_pow2_unfold(n as nat);
    }
    let step: u64 = 1u64 << n;
    let q = input / step;
    let rem = input % step;
    proof {
        let h = pow2((n - 1) as nat) as int;
        let s = step as int;
        assert(s == 2 * h);
        vstd::arithmetic::div_mod::lemma_fundamental_div_mod(input as int, s);
        assert(q < u64::MAX) by {
            vstd::arithmetic::div_mod::lemma_div_is_ordered(input as int, u64::MAX as int, s);
            vstd::arithmetic::div_mod::lemma_div_decreases(u64::MAX as int, s);
        }
        assert(input == q * s + rem) by (nonlinear_arith)
            requires
                q == input as int / s,
                rem == input as int % s,
                input as int == s * (input as int / s) + input as int % s,
        ;
        assert((q + 1) * s == q * s + s) by (nonlinear_arith);
        if rem >= h {
            vstd::arithmetic::div_mod::lemma_fundamental_div_mod_converse(
                input + h,
                s,
                q + 1,
                rem + h - s,
            );
        } else {
            vstd::arithmetic::div_mod::lemma_fundamental_div_mod_converse(input + h, s, q as int, rem + h);
        }
    }
    let up = if rem >= step / 2 {
        q + 1
    } else {
        q
    };
    up.wrapping_mul(step)
}

/// Recovers the message of a decrypted plaintext: rounds it as `closest_representable` does,
/// then divides by the encoding scale `delta`.
pub fn decode(plaintext: u64, base_log: usize, level_count: usize, delta: u64) -> (r: u64)
    requires
        decomposition_ok(base_log as nat, level_count as nat),
        delta > 0,
    ensures
        r == closest_multiple(plaintext, non_representable_bits(base_log as nat, level_count as nat))
            / delta,
{
    closest_representable(plaintext, base_log, level_count) / delta
}

} // verus!
