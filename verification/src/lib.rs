//! Deterministic low-discrepancy point sets in the unit square.
//!
//! Two stateless generators are provided, each driven only by the binary
//! representation of a point's index:
//!
//! - a Hammersley set, whose x-coordinate is the base-2 bit reversal
//!   (radical inverse) of the index and whose y-coordinate is the centre
//!   of the index's bucket, `(2i + 1) / (2n)`;
//! - a Larcher-Pillichshammer digital net, whose x-coordinate XOR-folds
//!   the rows of a fixed 32x32 bit matrix selected by the set bits of the
//!   index, and whose y-coordinate is `i / n`.
//!
//! Every coordinate either generator produces is a dyadic rational, so the
//! library computes exact integer numerators over a power-of-two
//! denominator; rendering a numerator as a decimal fraction is left to the
//! caller.

use vstd::prelude::*;

pub mod bits;
pub mod hammersley;
pub mod lp;

verus! {

/// Why a requested sample count was rejected.
#[derive(Clone, Copy, Debug, PartialEq, Eq, Structural)]
pub enum GenError {
    /// The sample count was zero: both generators divide by `n`.
    ZeroSamples,
    /// The sample count was not a power of two, so the bit-reversal
    /// symmetry (and the exact dyadic representation) would be lost.
    NotPowerOfTwo,
    /// The sample count was too large for the numerators to fit in the
    /// machine integers used.
    TooLarge,
}

} // verus!
