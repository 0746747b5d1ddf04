//! The Hammersley point set in the unit square.
//!
//! For a sample count `n` (a power of two) and an index `i` in `0..n`, the
//! point is
//!
//! - `x = 1/(2n) + rev(i)/n`, where `rev(i)` reverses the low `log2(n)`
//!   binary digits of `i` (the base-2 radical inverse), and
//! - `y = (2i + 1)/(2n)`, the centre of the `i`-th of `n` equal buckets.
//!
//! Both coordinates are exact fractions over the denominator `2n`, so the
//! functions here return integer numerators over `2n`. The driver that
//! prints the set recentres the square to `[-0.5, 0.5)` by subtracting
//! `1/2`, i.e. `n` from each numerator; `*_centered` functions return those
//! signed numerators.

use vstd::prelude::*;

verus! {

use vstd::arithmetic::power2::pow2;
use crate::bits::{log2, is_pow2, rev_bits, lemma_rev_bits_lt, lemma_rev_bits_injective,
    is_power_of_two};
use crate::GenError;

/// The largest accepted sample count: `2n` and every numerator over `2n`
/// must fit in 64-bit integers.
pub const MAX_SAMPLES: u64 = 0x4000_0000_0000_0000;

/// Numerator over `2n` of the x-coordinate before recentring:
/// `x = (2 rev(i) + 1) / (2n)`.
pub open spec fn x_num_spec(n: nat, i: nat) -> nat {
    1 + 2 * rev_bits(i, log2(n))
}

/// Numerator over `2n` of the y-coordinate before recentring:
/// `y = (2i + 1) / (2n)`.
pub open spec fn y_num_spec(i: nat) -> nat {
    2 * i + 1
}

/// Numerator over `2n` of the printed x-coordinate, `x - 1/2`.
pub open spec fn x_centered_spec(n: nat, i: nat) -> int {
    x_num_spec(n, i) - n
}

/// Numerator over `2n` of the printed y-coordinate, `y - 1/2`.
pub open spec fn y_centered_spec(n: nat, i: nat) -> int {
    y_num_spec(i) - n
}

/// The bit-reversal sum as the x-coordinate loop accumulates it: scanning
/// the binary digits of `j` from the least significant, each set digit
/// contributes the successively halved weight `p / 2`, `p / 4`, ...
pub open spec fn scaled_rev(j: nat, p: nat) -> nat
    decreases j,
{
    if j == 0 {
        0
    } else {
        (j % 2) * (p / 2) + scaled_rev(j / 2, p / 2)
    }
}

/// The halved weights sum to less than the initial weight.
proof fn lemma_scaled_rev_le(j: nat, p: nat)
    ensures
        scaled_rev(j, p) <= p,
    decreases j,
{
    if j > 0 {
        lemma_scaled_rev_le(j / 2, p / 2);
        assert((j % 2) * (p / 2) <= p / 2) by (nonlinear_arith)
            requires
                j % 2 <= 1,
        ;
    }
}

/// Digit by digit, the halved-weight sum with initial weight `2 * pow2(k)`
/// is twice the `k`-digit bit reversal.
proof fn lemma_scaled_rev_is_rev(i: nat, k: nat)
    requires
        i < pow2(k),
    ensures
        scaled_rev(i, 2 * pow2(k)) == 2 * rev_bits(i, k),
    decreases k,
{
    vstd::arithmetic::power2::lemma2_to64();
    if i == 0 {
        crate::bits::lemma_rev_bits_zero(k);
    } else {
        let k1 = (k - 1) as nat;
        vstd::arithmetic::power2::lemma_pow2_unfold(k);
        assert(pow2(k) == 2 * pow2(k1));
        assert(i / 2 < pow2(k1));
        lemma_scaled_rev_is_rev(i / 2, k1);
        assert(scaled_rev(i, 2 * pow2(k)) == (i % 2) * ((2 * pow2(k)) / 2) + scaled_rev(
            i / 2,
            (2 * pow2(k)) / 2,
        ));
        assert((2 * pow2(k)) / 2 == pow2(k));
        assert((i % 2) * pow2(k) == 2 * ((i % 2) * pow2(k1))) by (nonlinear_arith)
            requires
                pow2(k) == 2 * pow2(k1),
        ;
    }
}

/// The numerator over `2n` of the Hammersley x-coordinate of index `i`:
/// one half-bucket plus the bit reversal of `i` within `log2(n)` digits,
/// `x = 1/(2n) + rev(i)/n`.
pub fn x_numerator(n: u64, i: u64) -> (r: u64)
    requires
        is_pow2(n as nat),
        n <= MAX_SAMPLES,
        i < n,
    ensures
        r == x_num_spec(n as nat, i as nat),
        r < 2 * n,
        r % 2 == 1,
{
    let ghost k = log2(n as nat);
    let mut x: u64 = 1;
    let mut p: u64 = 2 * n;
    let mut j: u64 = i;
    proof {
        lemma_scaled_rev_le(i as nat, (2 * n) as nat);
    }
    while j != 0
        invariant
            x + scaled_rev(j as nat, p as nat) == 1 + scaled_rev(i as nat, (2 * n) as nat),
            scaled_rev(i as nat, (2 * n) as nat) <= 2 * n,
            n <= MAX_SAMPLES,
        decreases j,
    {
        proof {
            let j0 = j as nat;
            let p0 = p as nat;
            assert(scaled_rev(j0, p0) == (j0 % 2) * (p0 / 2) + scaled_rev(j0 / 2, p0 / 2));
            if j0 % 2 == 1 {
                assert((j0 % 2) * (p0 / 2) == p0 / 2) by (nonlinear_arith)
                    requires
                        j0 % 2 == 1,
                ;
            } else {
                assert((j0 % 2) * (p0 / 2) == 0) by (nonlinear_arith)
                    requires
                        j0 % 2 == 0,
                ;
            }
        }
        p = p / 2;
        if j % 2 == 1 {
            x = x + p;
        }
        j = j / 2;
    }
    proof {
        lemma_scaled_rev_is_rev(i as nat, k);
        lemma_rev_bits_lt(i as nat, k);
    }
    x
}

/// The numerator over `2n` of the Hammersley y-coordinate of index `i`:
/// `y = (2i + 1) / (2n)`, the centre of the `i`-th bucket.
pub fn y_numerator(n: u64, i: u64) -> (r: u64)
    requires
        n <= MAX_SAMPLES,
        i < n,
    ensures
        r == y_num_spec(i as nat),
        r < 2 * n,
{
    2 * i + 1
}

/// The Hammersley point of index `i`, as the pair of numerators of
/// `(x, y)` over the common denominator `2n`.
pub fn point(n: u64, i: u64) -> (r: (u64, u64))
    requires
        is_pow2(n as nat),
        n <= MAX_SAMPLES,
        i < n,
    ensures
        r.0 == x_num_spec(n as nat, i as nat),
        r.1 == y_num_spec(i as nat),
{
    (x_numerator(n, i), y_numerator(n, i))
}

/// The Hammersley point of index `i` after recentring to `[-0.5, 0.5)`:
/// the numerators of `(x - 1/2, y - 1/2)` over the denominator `2n`.
pub fn point_centered(n: u64, i: u64) -> (r: (i64, i64))
    requires
        is_pow2(n as nat),
        n <= MAX_SAMPLES,
        i < n,
    ensures
        r.0 == x_centered_spec(n as nat, i as nat),
        r.1 == y_centered_spec(n as nat, i as nat),
{
    let x = x_numerator(n, i);
    let y = y_numerator(n, i);
    ((x as i64) - (n as i64), (y as i64) - (n as i64))
}

/// The whole Hammersley set for sample count `n`, recentred, in ascending
/// index order: one numerator pair over `2n` per index in `0..n`.
///
/// A count of zero, one that is not a power of two, and one whose
/// numerators would not fit the machine integers are each rejected with
/// the matching error.
pub fn points(n: u64) -> (r: Result<Vec<(i64, i64)>, GenError>)
    ensures
        n == 0 ==> r == Result::<Vec<(i64, i64)>, GenError>::Err(GenError::ZeroSamples),
        n != 0 && n > MAX_SAMPLES ==> r == Result::<Vec<(i64, i64)>, GenError>::Err(
            GenError::TooLarge,
        ),
        n != 0 && n <= MAX_SAMPLES && !is_pow2(n as nat) ==> r == Result::<
            Vec<(i64, i64)>,
            GenError,
        >::Err(GenError::NotPowerOfTwo),
        is_pow2(n as nat) && n <= MAX_SAMPLES ==> r is Ok && r->Ok_0.len() == n && (forall|q: int|
            0 <= q < n ==> #[trigger] r->Ok_0[q].0 == x_centered_spec(n as nat, q as nat)
                && r->Ok_0[q].1 == y_centered_spec(n as nat, q as nat)),
{
    if n == 0 {
        proof {
            vstd::arithmetic::power2::lemma_pow2_pos(log2(0));
        }
        return Err(GenError::ZeroSamples);
    }
    if n > MAX_SAMPLES {
        return Err(GenError::TooLarge);
    }
    if !is_power_of_two(n) {
        return Err(GenError::NotPowerOfTwo);
    }
    let mut v: Vec<(i64, i64)> = Vec::new();
    let mut i: u64 = 0;
    while i < n
        invariant
            i <= n,
            v.len() == i,
            is_pow2(n as nat),
            0 < n <= MAX_SAMPLES,
            forall|q: int|
                0 <= q < i ==> #[trigger] v[q].0 == x_centered_spec(n as nat, q as nat) && v[q].1
                    == y_centered_spec(n as nat, q as nat),
        decreases n - i,
    {
        let pair = point_centered(n, i);
        v.push(pair);
        i = i + 1;
    }
    Ok(v)
}

/// The pre-offset y-numerators form the odd numbers in order: the sequence
/// starts at `1/(2n)` and steps by `2/(2n) = 1/n`, so it is evenly spaced
/// and strictly increasing in the index.
pub proof fn lemma_y_evenly_spaced(i: nat)
    ensures
        y_num_spec(0) == 1,
        y_num_spec(i + 1) == y_num_spec(i) + 2,
{
}

/// The y-coordinate is strictly increasing in the index, both before and
/// after recentring.
pub proof fn lemma_y_increasing(n: nat, i: nat, j: nat)
    requires
        i < j,
    ensures
        y_num_spec(i) < y_num_spec(j),
        y_centered_spec(n, i) < y_centered_spec(n, j),
{
}

/// Distinct indices of one sample count have distinct x-coordinates: bit
/// reversal is a bijection on `0..n` when `n` is a power of two.
pub proof fn lemma_x_distinct(n: nat, i: nat, j: nat)
    requires
        is_pow2(n),
        i < n,
        j < n,
        i != j,
    ensures
        x_num_spec(n, i) != x_num_spec(n, j),
{
    if x_num_spec(n, i) == x_num_spec(n, j) {
        lemma_rev_bits_injective(i, j, log2(n));
    }
}

} // verus!
