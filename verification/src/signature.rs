//! Relational BLS signatures.

use vstd::prelude::*;
use crate::bn254::G1Point;
use crate::grumpkin::GPoint;
use crate::relation::MapToCurveWitness;

verus! {

/// A relational BLS signature.
#[derive(Debug, Clone, Copy)]
pub struct BlsSignature {
    /// `sigma = sk * hm_bn254`, in BN254 G1.
    pub sigma: G1Point,
    /// The point of Grumpkin that the message maps to (a witness of the relation).
    pub hash_point: GPoint,
    /// The point of BN254 G1 derived from the x-coordinate of `hash_point`.
    pub hm_bn254: G1Point,
    /// The witness of the map-to-curve step.
    pub map_witness: MapToCurveWitness,
}

} // verus!
