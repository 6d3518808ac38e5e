//! The errors of the library.

use vstd::prelude::*;

verus! {

/// Why an operation of the library failed.
#[derive(Debug, PartialEq, Eq, Clone)]
pub enum AtlasError {
    /// No tweak below the bound gave a point of the curve.
    MapToCurveFailed { attempts: u32, tweak_bound: u32 },
    /// A witness does not satisfy the relation it is checked against.
    InvalidWitness { reason: &'static str },
    /// A message is outside the accepted range.
    MessageOutOfRange { max_bits: u32 },
    /// A BLS signature does not verify.
    BlsError { reason: &'static str },
    /// The read digest of a memory log differs from its write digest.
    MemoryInconsistent,
}

} // verus!
