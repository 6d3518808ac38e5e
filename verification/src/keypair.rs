//! BLS key pairs over BN254: a secret scalar and its multiple of the G2 generator.

use vstd::prelude::*;
use crate::field::Fq;
use crate::bn254::{G2Point, g2_generator_view, bn254_g2_mul};

verus! {

/// A BLS key pair: `sk` in the scalar field and `vk = sk * g2`.
#[derive(Debug, Clone, Copy)]
pub struct BlsKeyPair {
    pub secret_key: Fq,
    pub verification_key: G2Point,
}

impl BlsKeyPair {
    /// The key pair of the secret key `secret_key`.
    pub fn from_secret_key(secret_key: Fq) -> (r: Self)
        ensures
            r.secret_key == secret_key,
            r.verification_key@ == bn254_g2_mul(g2_generator_view(), secret_key@),
    {
        let verification_key = G2Point::generator().mul(&secret_key);
        Self { secret_key, verification_key }
    }
}

} // verus!
