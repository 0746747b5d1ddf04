//! Powers of two, the binary logarithm, and base-2 bit reversal.
//!
//! Both generators work on the binary representation of a point index, and
//! both need the sample count `n` to be a power of two: the Hammersley
//! x-coordinate is only an exact numerator over `2n` in that case, and the
//! bit-reversal permutation of `0..n` is only well defined then.

use vstd::prelude::*;

verus! {

use vstd::arithmetic::power2::{pow2, lemma_pow2_unfold, lemma_pow2_pos, lemma2_to64};

/// The floor of the base-2 logarithm; `log2(0)` is 0 by convention.
pub open spec fn log2(n: nat) -> nat
    decreases n,
{
    if n <= 1 {
        0
    } else {
        1 + log2(n / 2)
    }
}

/// `n` is an exact power of two (so in particular `n >= 1`).
pub open spec fn is_pow2(n: nat) -> bool {
    n == pow2(log2(n))
}

/// A power of two other than one is even.
proof fn lemma_pow2_even(e: nat)
    ensures
        e > 0 ==> pow2(e) % 2 == 0,
{
    if e > 0 {
        lemma_pow2_unfold(e);
    }
}

/// An even number at least two is a power of two exactly when its half is.
proof fn lemma_is_pow2_half(m: nat)
    requires
        m >= 2,
        m % 2 == 0,
    ensures
        is_pow2(m) == is_pow2((m / 2) as nat),
{
    let h = (m / 2) as nat;
    assert(log2(m) == 1 + log2(h));
    lemma_pow2_unfold((1 + log2(h)) as nat);
    assert(pow2(log2(m)) == 2 * pow2(log2(h)));
    assert(m == 2 * h);
}

/// An odd number greater than one is not a power of two.
proof fn lemma_is_pow2_odd(m: nat)
    requires
        m >= 2,
        m % 2 == 1,
    ensures
        !is_pow2(m),
{
    assert(log2(m) == 1 + log2((m / 2) as nat));
    lemma_pow2_even(log2(m));
}

/// Decides whether `n` is an exact power of two.
pub fn is_power_of_two(n: u64) -> (r: bool)
    ensures
        r == is_pow2(n as nat),
{
    if n == 0 {
        proof {
            lemma_pow2_pos(log2(0));
        }
        return false;
    }
    let mut m: u64 = n;
    while m > 1
        invariant
            1 <= m <= n,
            is_pow2(n as nat) == is_pow2(m as nat),
        decreases m,
    {
        if m % 2 != 0 {
            proof {
                lemma_is_pow2_odd(m as nat);
            }
            return false;
        }
        proof {
            lemma_is_pow2_half(m as nat);
        }
        m = m / 2;
    }
    proof {
        lemma2_to64();
        assert(is_pow2(1));
    }
    true
}

/// The reversal of the low `k` binary digits of `i`: digit `b` of `i`
/// (counting from the least significant) becomes digit `k - 1 - b` of the
/// result. Digits of `i` at position `k` and above are ignored.
pub open spec fn rev_bits(i: nat, k: nat) -> nat
    decreases k,
{
    if k == 0 {
        0
    } else {
        (i % 2) * pow2((k - 1) as nat) + rev_bits(i / 2, (k - 1) as nat)
    }
}

/// A `k`-digit reversal is itself a `k`-digit value.
pub proof fn lemma_rev_bits_lt(i: nat, k: nat)
    ensures
        rev_bits(i, k) < pow2(k),
    decreases k,
{
    lemma2_to64();
    if k > 0 {
        let k1 = (k - 1) as nat;
        lemma_rev_bits_lt(i / 2, k1);
        lemma_pow2_unfold(k);
        assert((i % 2) * pow2(k1) <= pow2(k1)) by {
            if i % 2 == 0 {
                assert((i % 2) * pow2(k1) == 0);
            } else {
                assert(i % 2 == 1);
            }
        }
    }
}

/// Reversing the digits of zero gives zero.
pub proof fn lemma_rev_bits_zero(k: nat)
    ensures
        rev_bits(0, k) == 0,
    decreases k,
{
    if k > 0 {
        let k1 = (k - 1) as nat;
        lemma_rev_bits_zero(k1);
        assert(rev_bits(0, k) == (0nat % 2) * pow2(k1) + rev_bits(0nat / 2, k1));
    }
}

/// Bit reversal permutes `0..pow2(k)`: two distinct `k`-digit values have
/// distinct reversals.
pub proof fn lemma_rev_bits_injective(i: nat, j: nat, k: nat)
    requires
        i < pow2(k),
        j < pow2(k),
        rev_bits(i, k) == rev_bits(j, k),
    ensures
        i == j,
    decreases k,
{
    lemma2_to64();
    if k == 0 {
        assert(i == 0 && j == 0);
    } else {
        let k1 = (k - 1) as nat;
        let p = pow2(k1);
        lemma_pow2_unfold(k);
        lemma_rev_bits_lt(i / 2, k1);
        lemma_rev_bits_lt(j / 2, k1);
        assert((i % 2) * p + rev_bits(i / 2, k1) == (j % 2) * p + rev_bits(j / 2, k1));
        if i % 2 != j % 2 {
            if i % 2 == 1 {
                assert((i % 2) * p == p) by (nonlinear_arith)
                    requires
                        i % 2 == 1,
                ;
                assert((j % 2) * p == 0) by (nonlinear_arith)
                    requires
                        j % 2 == 0,
                ;
                assert(p + rev_bits(i / 2, k1) == rev_bits(j / 2, k1));
                assert(false);
            } else {
                assert((j % 2) * p == p) by (nonlinear_arith)
                    requires
                        j % 2 == 1,
                ;
                assert((i % 2) * p == 0) by (nonlinear_arith)
                    requires
                        i % 2 == 0,
                ;
                assert(rev_bits(i / 2, k1) == p + rev_bits(j / 2, k1));
                assert(false);
            }
        }
        assert(rev_bits(i / 2, k1) == rev_bits(j / 2, k1));
        assert(i / 2 < p && j / 2 < p);
        lemma_rev_bits_injective(i / 2, j / 2, k1);
        assert(i == 2 * (i / 2) + i % 2);
        assert(j == 2 * (j / 2) + j % 2);
    }
}

} // verus!
