//! The bit-level model of subnet masks: a population count, the mask a
//! prefix length denotes, and the proofs connecting the two.

use vstd::arithmetic::div_mod::lemma_fundamental_div_mod_converse;
use vstd::arithmetic::power2::{lemma2_to64, lemma_pow2_adds, lemma_pow2_pos, lemma_pow2_unfold, pow2};
use vstd::bits::{
    lemma_low_bits_mask_div2, lemma_low_bits_mask_is_odd, lemma_low_bits_mask_values,
    lemma_u32_shl_is_mul, lemma_u32_shr_is_div, low_bits_mask,
};
use vstd::prelude::*;

verus! {

/// The number of set bits in the binary representation of `n`.
pub open spec fn count_ones(n: nat) -> nat
    decreases n,
{
    if n == 0 {
        0
    } else {
        n % 2 + count_ones(n / 2)
    }
}

/// The 32-bit subnet mask that prefix length `p` denotes: the top `p` bits
/// set, the low `32 - p` bits clear.
pub open spec fn subnet_mask_of(p: u32) -> u32
    recommends
        p <= 32,
{
    if p == 32 {
        0xFFFFFFFFu32
    } else {
        !(0xFFFFFFFFu32 >> p)
    }
}

/// A value below `2^k` has at most `k` set bits.
proof fn lemma_count_ones_bound(n: nat, k: nat)
    requires
        n < pow2(k),
    ensures
        count_ones(n) <= k,
    decreases k,
{
    if k == 0 {
        assert(pow2(0) == 1) by {
            lemma2_to64();
        }
    } else {
        lemma_pow2_unfold(k);
        assert(n / 2 < pow2((k - 1) as nat)) by (nonlinear_arith)
            requires
                n < 2 * pow2((k - 1) as nat),
        ;
        lemma_count_ones_bound(n / 2, (k - 1) as nat);
    }
}

/// A 32-bit value has at most 32 set bits.
pub(crate) proof fn lemma_count_ones_u32_le_32(n: u32)
    ensures
        count_ones(n as nat) <= 32,
{
    lemma2_to64();
    lemma_count_ones_bound(n as nat, 32);
}

/// A run of `j` low one-bits has exactly `j` set bits.
proof fn lemma_count_ones_low_bits_mask(j: nat)
    ensures
        count_ones(low_bits_mask(j)) == j,
    decreases j,
{
    if j == 0 {
        assert(low_bits_mask(0) == 0) by {
            lemma2_to64();
        }
    } else {
        lemma_low_bits_mask_is_odd(j);
        lemma_low_bits_mask_div2(j);
        lemma_count_ones_low_bits_mask((j - 1) as nat);
    }
}

/// Multiplying by a power of two shifts the bits upward without changing
/// how many of them are set.
proof fn lemma_count_ones_mul_pow2(x: nat, k: nat)
    ensures
        count_ones(x * pow2(k)) == count_ones(x),
    decreases k,
{
    if k == 0 {
        assert(pow2(0) == 1) by {
            lemma2_to64();
        }
    } else {
        lemma_pow2_unfold(k);
        let q = pow2((k - 1) as nat);
        let y = x * q;
        assert(x * pow2(k) == 2 * y) by (nonlinear_arith)
            requires
                pow2(k) == 2 * q,
                y == x * q,
        ;
        assert((2 * y) % 2 == 0 && (2 * y) / 2 == y) by (nonlinear_arith);
        lemma_count_ones_mul_pow2(x, (k - 1) as nat);
        if x != 0 {
            lemma_pow2_pos((k - 1) as nat);
            assert(y != 0) by (nonlinear_arith)
                requires
                    y == x * q,
                    x >= 1,
                    q >= 1,
            ;
        }
    }
}

/// `2^32 - 1` divided by `2^k` leaves a run of `32 - k` low one-bits.
proof fn lemma_all_ones_shr_value(k: nat)
    requires
        k <= 31,
    ensures
        0xFFFFFFFFnat / pow2(k) == low_bits_mask((32 - k) as nat),
{
    let a = pow2((32 - k) as nat);
    let b = pow2(k);
    lemma_pow2_adds((32 - k) as nat, k);
    lemma2_to64();
    lemma_pow2_pos(k);
    lemma_pow2_pos((32 - k) as nat);
    assert((a - 1) * b + (b - 1) == a * b - 1) by (nonlinear_arith);
    lemma_fundamental_div_mod_converse(
        0xFFFFFFFF as int,
        b as int,
        (a - 1) as int,
        (b - 1) as int,
    );
}

/// For `1 <= p <= 31` the subnet mask is a run of `p` one-bits moved to the
/// top of the word: `low_bits_mask(p) * 2^(32-p)`.
proof fn lemma_subnet_mask_decompose(p: u32)
    requires
        1 <= p <= 31,
    ensures
        subnet_mask_of(p) as nat == low_bits_mask(p as nat) * pow2((32 - p) as nat),
{
    let k: u32 = (32 - p) as u32;
    assert(!(0xFFFFFFFFu32 >> p) == ((0xFFFFFFFFu32 >> k) << k)) by (bit_vector)
        requires
            1 <= p <= 31,
            k == 32 - p,
    ;
    lemma_u32_shr_is_div(0xFFFFFFFFu32, k);
    lemma_all_ones_shr_value(k as nat);
    let a = pow2(p as nat);
    let b = pow2(k as nat);
    lemma_pow2_adds(p as nat, k as nat);
    lemma2_to64();
    lemma_pow2_pos(p as nat);
    lemma_pow2_pos(k as nat);
    assert((a - 1) * b == a * b - b) by (nonlinear_arith);
    lemma_u32_shl_is_mul(0xFFFFFFFFu32 >> k, k);
}

/// Round trip between the two conversions: the subnet mask that prefix
/// length `p` denotes has exactly `p` set bits, so counting the bits of
/// `subnet_mask_of(p)` gives back `p` for every `p` in `[0, 32]`.
pub proof fn lemma_prefix_len_round_trip(p: u32)
    requires
        p <= 32,
    ensures
        count_ones(subnet_mask_of(p) as nat) == p as nat,
{
    if p == 0 {
        assert(!(0xFFFFFFFFu32 >> 0u32) == 0u32) by (bit_vector);
    } else if p == 32 {
        lemma_low_bits_mask_values();
        lemma_count_ones_low_bits_mask(32);
    } else {
        lemma_subnet_mask_decompose(p);
        lemma_count_ones_mul_pow2(low_bits_mask(p as nat), (32 - p) as nat);
        lemma_count_ones_low_bits_mask(p as nat);
    }
}

} // verus!
