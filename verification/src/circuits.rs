//! Estimated PLONK constraint counts per invocation of a hash construction.

use vstd::prelude::*;

verus! {

/// Constraints per invocation of the ATLAS map-to-curve relation.
pub const ATLAS_CONSTRAINTS: u64 = 30;
/// Constraints per invocation of MiMC.
pub const MIMC_CONSTRAINTS: u64 = 351;
/// Constraints per invocation of Poseidon.
pub const POSEIDON_CONSTRAINTS: u64 = 948;
/// Constraints per invocation of SHA-256.
pub const SHA256_CONSTRAINTS: u64 = 7_095;

/// The constraint cost of invoking one construction `num_invokes` times.
#[derive(Debug, Clone)]
pub struct ConstraintEstimate {
    pub label: &'static str,
    pub per_invoke: u64,
    pub num_invokes: u64,
}

impl ConstraintEstimate {
    /// Total number of constraints: the cost of one invocation times the
    /// number of invocations.
    pub fn total(&self) -> (r: u64)
        requires
            self.per_invoke * self.num_invokes <= u64::MAX,
        ensures
            r == self.per_invoke * self.num_invokes,
    {
        self.per_invoke * self.num_invokes
    }

    /// The estimate for `n` invocations of ATLAS.
    pub fn atlas(n: u64) -> (r: Self)
        ensures
            r.label == "ATLAS",
            r.per_invoke == ATLAS_CONSTRAINTS,
            r.num_invokes == n,
    {
        Self { label: "ATLAS", per_invoke: ATLAS_CONSTRAINTS, num_invokes: n }
    }

    /// The estimate for `n` invocations of MiMC.
    pub fn mimc(n: u64) -> (r: Self)
        ensures
            r.label == "MiMC",
            r.per_invoke == MIMC_CONSTRAINTS,
            r.num_invokes == n,
    {
        Self { label: "MiMC", per_invoke: MIMC_CONSTRAINTS, num_invokes: n }
    }

    /// The estimate for `n` invocations of Poseidon.
    pub fn poseidon(n: u64) -> (r: Self)
        ensures
            r.label == "Poseidon",
            r.per_invoke == POSEIDON_CONSTRAINTS,
            r.num_invokes == n,
    {
        Self { label: "Poseidon", per_invoke: POSEIDON_CONSTRAINTS, num_invokes: n }
    }

    /// The estimate for `n` invocations of SHA-256.
    pub fn sha256(n: u64) -> (r: Self)
        ensures
            r.label == "SHA-256",
            r.per_invoke == SHA256_CONSTRAINTS,
            r.num_invokes == n,
    {
        Self { label: "SHA-256", per_invoke: SHA256_CONSTRAINTS, num_invokes: n }
    }
}

} // verus!
