//! Enumeration of the subsets of a bit mask, and the proof that the
//! enumeration reaches every subset.

use vstd::prelude::*;

use crate::bitboard::bit64;
use crate::bitboard::bit_cnt;

verus! {

/// Two to the power `k`.
pub open spec fn pow2n(k: nat) -> nat
    decreases k,
{
    if k == 0 {
        1
    } else {
        2 * pow2n((k - 1) as nat)
    }
}

/// The subset of `m`'s set bits at positions `p` and above selected by the
/// binary digits of `j`: digit `t` of `j` selects the `t`-th set bit of `m`
/// at or above `p`.
pub open spec fn spread(j: nat, m: u64, p: nat) -> u64
    decreases 64 - p,
{
    if p >= 64 {
        0u64
    } else if bit64(m, p as u64) {
        (if j % 2 == 1 {
            1u64 << (p as u64)
        } else {
            0u64
        }) | spread(j / 2, m, (p + 1) as nat)
    } else {
        spread(j, m, (p + 1) as nat)
    }
}

/// The position of subset `s` in the spread enumeration of mask `m`,
/// counting bits at positions `p` and above.
pub open spec fn subset_rank(s: u64, m: u64, p: nat) -> nat
    decreases 64 - p,
{
    if p >= 64 {
        0
    } else if bit64(m, p as u64) {
        (if bit64(s, p as u64) {
            1nat
        } else {
            0nat
        }) + 2 * subset_rank(s, m, (p + 1) as nat)
    } else {
        subset_rank(s, m, (p + 1) as nat)
    }
}

/// The value formed by the bits of `s` at positions `p` and above.
pub open spec fn hi_bits(s: u64, p: nat) -> u64
    decreases 64 - p,
{
    if p >= 64 {
        0u64
    } else if bit64(s, p as u64) {
        (1u64 << (p as u64)) | hi_bits(s, (p + 1) as nat)
    } else {
        hi_bits(s, (p + 1) as nat)
    }
}

/// Facts about bitwise or as a value-level operation.
proof fn lemma_or_facts()
    by (bit_vector)
    ensures
        forall|a: u64| #[trigger] (a | 0u64) == a,
        forall|a: u64| #[trigger] (0u64 | a) == a,
        forall|a: u64, b: u64, c: u64| #[trigger] ((a | b) | c) == (a | (b | c)),
{
}

/// `hi_bits` computes the value of `s` with its low `p` bits cleared.
proof fn lemma_hi_bits_shift(s: u64, p: u64)
    requires
        p <= 64,
    ensures
        hi_bits(s, p as nat) == if p == 64 {
            0u64
        } else {
            (s >> p) << p
        },
    decreases 64 - p,
{
    if p == 64 {
    } else {
        let q: u64 = (p + 1) as u64;
        lemma_hi_bits_shift(s, q);
        if (s >> p) & 1u64 == 1u64 {
            assert((1u64 << p) | (if q == 64 {
                0u64
            } else {
                (s >> q) << q
            }) == (s >> p) << p) by (bit_vector)
                requires
                    p < 64,
                    q == p + 1,
                    (s >> p) & 1u64 == 1u64,
            ;
        } else {
            assert((if q == 64 {
                0u64
            } else {
                (s >> q) << q
            }) == (s >> p) << p) by (bit_vector)
                requires
                    p < 64,
                    q == p + 1,
                    (s >> p) & 1u64 != 1u64,
            ;
        }
    }
}

/// `hi_bits` from position zero is the value itself.
proof fn lemma_hi_bits_id(s: u64)
    ensures
        hi_bits(s, 0) == s,
{
    lemma_hi_bits_shift(s, 0);
    assert((s >> 0u64) << 0u64 == s) by (bit_vector);
}

/// The rank of any subset is below two to the number of mask bits.
proof fn lemma_subset_rank_bound(s: u64, m: u64, p: nat)
    ensures
        subset_rank(s, m, p) < pow2n(bit_cnt(m, p)),
    decreases 64 - p,
{
    if p >= 64 {
    } else {
        lemma_subset_rank_bound(s, m, (p + 1) as nat);
    }
}

/// Spreading the rank of a subset of `m` recovers the subset.
proof fn lemma_spread_rank(s: u64, m: u64, p: nat)
    requires
        s & m == s,
    ensures
        spread(subset_rank(s, m, p), m, p) == hi_bits(s, p),
    decreases 64 - p,
{
    if p >= 64 {
    } else {
        let pu = p as u64;
        lemma_spread_rank(s, m, (p + 1) as nat);
        if bit64(m, pu) {
            let b: nat = if bit64(s, pu) {
                1nat
            } else {
                0nat
            };
            let rk = subset_rank(s, m, (p + 1) as nat);
            let j = b + 2 * rk;
            assert(j % 2 == b && j / 2 == rk);
            if bit64(s, pu) {
            } else {
                lemma_or_facts();
            }
        } else {
            assert((s >> pu) & 1u64 != 1u64) by (bit_vector)
                requires
                    s & m == s,
                    pu < 64,
                    (m >> pu) & 1u64 != 1u64,
            ;
        }
    }
}

/// Every subset `s` of mask `m` appears in the spread enumeration, at a
/// position below two to the mask's bit count.
pub proof fn lemma_subset_enumeration(s: u64, m: u64)
    requires
        s & m == s,
    ensures
        subset_rank(s, m, 0) < pow2n(bit_cnt(m, 0)),
        spread(subset_rank(s, m, 0), m, 0) == s,
{
    lemma_subset_rank_bound(s, m, 0);
    lemma_spread_rank(s, m, 0);
    lemma_hi_bits_id(s);
}

/// Two to a power below 64 as a shifted bit.
pub proof fn lemma_pow2n_shift(k: nat)
    requires
        k < 64,
    ensures
        pow2n(k) == (1u64 << (k as u64)) as nat,
    decreases k,
{
    if k == 0 {
        assert(1u64 << 0u64 == 1u64) by (bit_vector);
    } else {
        lemma_pow2n_shift((k - 1) as nat);
        let ku = k as u64;
        let k1: u64 = (k - 1) as u64;
        assert(1u64 << ku == 2 * (1u64 << k1)) by (bit_vector)
            requires
                0 < ku < 64,
                k1 == ku - 1,
        ;
    }
}

/// The bit count of any value is at most the positions remaining.
pub proof fn lemma_bit_cnt_bound(m: u64, p: nat)
    requires
        p <= 64,
    ensures
        bit_cnt(m, p) <= 64 - p,
    decreases 64 - p,
{
    if p >= 64 {
    } else {
        lemma_bit_cnt_bound(m, (p + 1) as nat);
    }
}

/// A value with a clear bit has a bit count strictly below the positions
/// remaining.
pub proof fn lemma_bit_cnt_missing(m: u64, p: nat, i0: u64)
    requires
        p <= i0 < 64,
        !bit64(m, i0),
    ensures
        bit_cnt(m, p) < 64 - p,
    decreases 64 - p,
{
    if p == i0 {
        lemma_bit_cnt_bound(m, (p + 1) as nat);
    } else {
        lemma_bit_cnt_missing(m, (p + 1) as nat, i0);
    }
}

/// A value whose bit count is zero has no set bits.
pub proof fn lemma_bit_cnt_zero(m: u64, p: nat)
    requires
        bit_cnt(m, p) == 0,
    ensures
        forall|i: u64| p <= i < 64 ==> !bit64(m, i),
    decreases 64 - p,
{
    if p >= 64 {
    } else {
        lemma_bit_cnt_zero(m, (p + 1) as nat);
    }
}

/// The `j`-th subset of mask `m` in the spread enumeration.
pub fn subset_at(j: usize, m: u64) -> (r: u64)
    ensures
        r == spread(j as nat, m, 0),
{
    let mut res: u64 = 0;
    let mut jc = j;
    let mut p: u64 = 0;
    proof {
        lemma_or_facts();
    }
    while p < 64
        invariant
            p <= 64,
            spread(j as nat, m, 0) == res | spread(jc as nat, m, p as nat),
        decreases 64 - p,
    {
        proof {
            lemma_or_facts();
        }
        if (m >> p) & 1u64 == 1u64 {
            if jc % 2 == 1 {
                res = res | (1u64 << p);
            }
            jc = jc / 2;
        }
        p = p + 1;
    }
    proof {
        lemma_or_facts();
    }
    res
}

} // verus!
