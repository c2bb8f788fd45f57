//! Hamming distance between 64-bit fingerprints.

use vstd::prelude::*;

verus! {

/// Number of set bits among the `n` lowest bits of `x`.
pub open spec fn count_ones_upto(x: u64, n: nat) -> nat
    decreases n,
{
    if n == 0 {
        0
    } else {
        count_ones_upto(x, (n - 1) as nat) + (if (x >> ((n - 1) as u64)) & 1 == 1 {
            1nat
        } else {
            0nat
        })
    }
}

/// Hamming distance between two fingerprints: the number of bit positions
/// in which they differ.
pub open spec fn hamming(x: u64, y: u64) -> nat {
    count_ones_upto(x ^ y, 64)
}

pub proof fn lemma_count_ones_upto_le(x: u64, n: nat)
    ensures
        count_ones_upto(x, n) <= n,
    decreases n,
{
    if n > 0 {
        lemma_count_ones_upto_le(x, (n - 1) as nat);
    }
}

pub proof fn lemma_count_ones_upto_zero(n: nat)
    ensures
        count_ones_upto(0u64, n) == 0,
    decreases n,
{
    if n > 0 {
        lemma_count_ones_upto_zero((n - 1) as nat);
        let sh: u64 = (n - 1) as u64;
        assert((0u64 >> sh) & 1 == 0) by (bit_vector);
    }
}

/// The Hamming distance never exceeds the fingerprint width.
pub proof fn lemma_hamming_le_64(x: u64, y: u64)
    ensures
        hamming(x, y) <= 64,
{
    lemma_count_ones_upto_le(x ^ y, 64);
}

/// The Hamming distance is symmetric in its arguments.
pub proof fn lemma_hamming_symmetric(x: u64, y: u64)
    ensures
        hamming(x, y) == hamming(y, x),
{
    assert(x ^ y == y ^ x) by (bit_vector);
}

/// A fingerprint is at distance zero from itself.
pub proof fn lemma_hamming_self_zero(x: u64)
    ensures
        hamming(x, x) == 0,
{
    assert(x ^ x == 0) by (bit_vector);
    lemma_count_ones_upto_zero(64);
}

/// Computes the Hamming distance between two fingerprints.
pub fn hamming_distance(x: u64, y: u64) -> (d: u8)
    ensures
        d as nat == hamming(x, y),
        d <= 64,
{
    let z = x ^ y;
    let mut d: u8 = 0;
    let mut i: u64 = 0;
    while i < 64
        invariant
            i <= 64,
            d as nat == count_ones_upto(z, i as nat),
            d <= i,
        decreases 64 - i,
    {
        if (z >> i) & 1 == 1 {
            d = d + 1;
        }
        assert(count_ones_upto(z, (i + 1) as nat) == count_ones_upto(z, i as nat) + (if (z >> i)
            & 1 == 1 {
            1nat
        } else {
            0nat
        }));
        i = i + 1;
    }
    d
}

} // verus!
