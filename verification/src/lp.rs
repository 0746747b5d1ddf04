//! The Larcher-Pillichshammer digital net in the unit square.
//!
//! For a sample count `n` (a power of two) and an index `i` in `0..n`, the
//! point is
//!
//! - `x = fold(i) / 2^32`, where `fold(i)` XORs together the rows of a
//!   fixed 32x32 bit generator matrix selected by the set bits of `i`, and
//! - `y = i / n`.
//!
//! The matrix is realised as a function from row index to 32-bit mask and
//! is a pluggable strategy: row `p` of the Larcher-Pillichshammer matrix
//! is `!0u32 << p` (all bits from `p` upward), and an alternative van der
//! Corput matrix with row `1u32 << p` is also provided.
//!
//! The x-numerator is exact over `2^32` and the y-numerator over `n`. The
//! driver that prints the set adds `(1 - n)/(2n)` to both coordinates;
//! `*_centered` functions return the resulting signed numerators, x over
//! `2^32` and y over `2n`.

use vstd::prelude::*;

verus! {

use vstd::arithmetic::power2::pow2;
use crate::bits::{log2, is_pow2, is_power_of_two};
use crate::GenError;

/// The largest accepted sample count: the recentring offset `(1 - n)/(2n)`
/// is only an exact numerator over `2^32` while `2n` divides `2^32`.
pub const MAX_SAMPLES: u32 = 0x8000_0000;

/// Which generator matrix the fold uses.
#[derive(Clone, Copy, Debug, PartialEq, Eq, Structural)]
pub enum MatrixKind {
    /// Row `p` is `!0u32 << p`: every bit from `p` upward is set.
    LarcherPillichshammer,
    /// Row `p` is `1u32 << p`: the identity matrix, giving the base-2 van
    /// der Corput construction.
    VanDerCorput,
}

/// Row `p` of the generator matrix, as a 32-bit mask.
pub open spec fn row_spec(m: MatrixKind, p: u32) -> u32
    recommends
        p < 32,
{
    match m {
        MatrixKind::LarcherPillichshammer => !0u32 << p,
        MatrixKind::VanDerCorput => 1u32 << p,
    }
}

/// The XOR fold over the low `b` bit positions of `k`: each set bit of `k`
/// at a position `p < b` contributes row `p` of the matrix.
pub open spec fn fold_spec(k: u32, m: MatrixKind, b: int) -> u32
    decreases b,
{
    if b <= 0 {
        0u32
    } else {
        let p = (b - 1) as u32;
        let prev = fold_spec(k, m, b - 1);
        if k & (1u32 << p) != 0 {
            prev ^ row_spec(m, p)
        } else {
            prev
        }
    }
}

/// The numerator over `2^32` of the x-coordinate of index `k`: the XOR
/// fold over all 32 bit positions.
pub open spec fn generate_spec(k: u32, m: MatrixKind) -> u32 {
    fold_spec(k, m, 32)
}

/// Numerator over `n` of the y-coordinate before recentring: `y = i / n`.
pub open spec fn y_num_spec(i: nat) -> nat {
    i
}

/// Numerator over `2^32` of the printed x-coordinate,
/// `x + (1 - n)/(2n)`; the offset is `2^31/n - 2^31` over `2^32`.
pub open spec fn x_centered_spec(n: nat, k: u32, m: MatrixKind) -> int {
    generate_spec(k, m) + pow2(31) / n - pow2(31)
}

/// Numerator over `2n` of the printed y-coordinate,
/// `i/n + (1 - n)/(2n) = (2i + 1 - n)/(2n)`.
pub open spec fn y_centered_spec(n: nat, i: nat) -> int {
    2 * i + 1 - n
}

/// Row `p` of the chosen generator matrix.
pub fn matrix_row(m: MatrixKind, p: u32) -> (r: u32)
    requires
        p < 32,
    ensures
        r == row_spec(m, p),
{
    match m {
        MatrixKind::LarcherPillichshammer => !0u32 << p,
        MatrixKind::VanDerCorput => 1u32 << p,
    }
}

/// The x-numerator of index `k` over the denominator `2^32`: XORs the
/// matrix rows selected by the set bits of `k`. All 32 bit positions are
/// scanned whatever `k` is; only its set bits contribute a row.
pub fn generate(k: u32, m: MatrixKind) -> (r: u32)
    ensures
        r == generate_spec(k, m),
{
    let mut x: u32 = 0;
    let mut p: u32 = 0;
    while p < 32
        invariant
            p <= 32,
            x == fold_spec(k, m, p as int),
        decreases 32 - p,
    {
        if k & (1u32 << p) != 0 {
            x = x ^ matrix_row(m, p);
        }
        p = p + 1;
    }
    x
}

/// The digital-net point of index `i`: the x-numerator over `2^32` and
/// the y-numerator `i` over `n`.
pub fn point(n: u32, i: u32, m: MatrixKind) -> (r: (u32, u32))
    requires
        0 < n,
        i < n,
    ensures
        r.0 == generate_spec(i, m),
        r.1 == y_num_spec(i as nat),
{
    (generate(i, m), i)
}

/// The digital-net point of index `i` after recentring by the offset
/// `(1 - n)/(2n)`: the x-numerator over `2^32` and the y-numerator over
/// `2n`.
pub fn point_centered(n: u32, i: u32, m: MatrixKind) -> (r: (i64, i64))
    requires
        is_pow2(n as nat),
        n <= MAX_SAMPLES,
        i < n,
    ensures
        r.0 == x_centered_spec(n as nat, i, m),
        r.1 == y_centered_spec(n as nat, i as nat),
{
    proof {
        vstd::arithmetic::power2::lemma2_to64();
    }
    let g = generate(i, m);
    let x = (g as i64) + ((0x8000_0000u32 / n) as i64) - 0x8000_0000i64;
    let y = 2 * (i as i64) + 1 - (n as i64);
    (x, y)
}

/// The whole digital net for sample count `n`, recentred, in ascending
/// index order: one numerator pair per index in `0..n`, x over `2^32` and
/// y over `2n`.
///
/// A count of zero, one that is not a power of two, and one too large for
/// the offset to stay an exact numerator over `2^32` are each rejected
/// with the matching error.
pub fn points(n: u32, m: MatrixKind) -> (r: Result<Vec<(i64, i64)>, GenError>)
    ensures
        n == 0 ==> r == Result::<Vec<(i64, i64)>, GenError>::Err(GenError::ZeroSamples),
        n != 0 && n > MAX_SAMPLES ==> r == Result::<Vec<(i64, i64)>, GenError>::Err(
            GenError::TooLarge,
        ),
        n != 0 && n <= MAX_SAMPLES && !is_pow2(n as nat) ==> r == Result::<
            Vec<(i64, i64)>,
            GenError,
        >::Err(GenError::NotPowerOfTwo),
        is_pow2(n as nat) && n <= MAX_SAMPLES ==> r is Ok && r->Ok_0.len() == n && (forall|q: int|
            0 <= q < n ==> #[trigger] r->Ok_0[q].0 == x_centered_spec(n as nat, q as u32, m)
                && r->Ok_0[q].1 == y_centered_spec(n as nat, q as nat)),
{
    if n == 0 {
        proof {
            vstd::arithmetic::power2::lemma_pow2_pos(log2(0));
        }
        return Err(GenError::ZeroSamples);
    }
    if n > MAX_SAMPLES {
        return Err(GenError::TooLarge);
    }
    if !is_power_of_two(n as u64) {
        return Err(GenError::NotPowerOfTwo);
    }
    let mut v: Vec<(i64, i64)> = Vec::new();
    let mut i: u32 = 0;
    while i < n
        invariant
            i <= n,
            v.len() == i,
            is_pow2(n as nat),
            0 < n <= MAX_SAMPLES,
            forall|q: int|
                0 <= q < i ==> #[trigger] v[q].0 == x_centered_spec(n as nat, q as u32, m)
                    && v[q].1 == y_centered_spec(n as nat, q as nat),
        decreases n - i,
    {
        let pair = point_centered(n, i, m);
        v.push(pair);
        i = i + 1;
    }
    Ok(v)
}

/// The fold of index zero is zero, whichever matrix is used: no bit is
/// set, so no row contributes. With the exact contract of `generate`,
/// which pins the result to a function of `k` and the matrix alone, this
/// also fixes the first point of every net at `x = 0`.
pub proof fn lemma_generate_zero(m: MatrixKind)
    ensures
        generate_spec(0, m) == 0,
{
    lemma_fold_zero(m, 32);
}

proof fn lemma_fold_zero(m: MatrixKind, b: int)
    requires
        b <= 32,
    ensures
        fold_spec(0, m, b) == 0,
    decreases b,
{
    if b > 0 {
        lemma_fold_zero(m, b - 1);
        let p = (b - 1) as u32;
        assert(0u32 & (1u32 << p) == 0) by (bit_vector);
    }
}

/// The y-coordinate is strictly increasing in the index, both before and
/// after recentring.
pub proof fn lemma_y_increasing(n: nat, i: nat, j: nat)
    requires
        i < j,
    ensures
        y_num_spec(i) < y_num_spec(j),
        y_centered_spec(n, i) < y_centered_spec(n, j),
{
}

} // verus!
