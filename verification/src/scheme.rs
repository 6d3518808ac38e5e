//! Relational BLS: the message is mapped to Grumpkin by the map-to-curve
//! relation, lifted to BN254 G1 through its x-coordinate, and signed there;
//! verification checks the relation and the pairing equation
//! `e(sigma, g2) = e(hm, vk)`.

use vstd::prelude::*;
use crate::error::AtlasError;
use crate::field::{Fq, Bn254Fq, fq_modulus, bn254_fq_add, bn254_fq_mul};
use crate::grumpkin::GPoint;
use crate::relation::{
    IncrementAndCheck,
    MapToCurveRelation,
    map_spec,
    map_failure,
    map_output,
    verify_spec,
    witness_relation,
    law_verify_is_relation,
};
use crate::bn254::{
    G1Point, G2Point, G1View, G2View, pairing, g1_generator_view, g2_generator_view, g1_valid,
    bn254_g1_mul, bn254_g2_mul, bn254_pairing,
};
use crate::keypair::BlsKeyPair;
use crate::signature::BlsSignature;
use crate::large_message::{LargeMessageWitness, compress, recompute, weighted_sum, chunk_values, challenge_spec};
use crate::hasher::values;
use crate::field::le_value;
use crate::hash::sha256_spec;

verus! {

/// The point of G1 that a Grumpkin x-coordinate is lifted to: `x * g1`.
pub open spec fn bls_hm(x: nat) -> G1View {
    bn254_g1_mul(g1_generator_view(), x)
}

/// The outcome of verifying `sig` for message `m` under `vk`: the map-to-curve
/// witness is checked first, then the pairing equation.
pub open spec fn bls_verify_spec(bound: u64, vk: G2View, m: nat, sig: BlsSignature) -> Result<(), AtlasError> {
    match verify_spec(
        m,
        bound as nat,
        sig.hash_point@,
        sig.map_witness.tweak as nat,
        sig.map_witness.sqrt_witness@,
        sig.map_witness.x@,
    ) {
        Err(e) => Err(e),
        Ok(_) => if bn254_pairing(sig.sigma@, g2_generator_view()) == bn254_pairing(
            bls_hm(sig.hash_point.x@),
            vk,
        ) {
            Ok(())
        } else {
            Err(AtlasError::BlsError { reason: "pairing check failed: e(sigma,g2) != e(hm,vk)" })
        },
    }
}

/// A relational BLS signature verifies exactly when its map-to-curve witness
/// puts its Grumpkin point in relation with the message and the two pairings
/// are equal as whole target-field elements:
/// `e(sigma, g2) = e(x * g1, vk)`, with `x` the point's x-coordinate.
pub proof fn law_bls_verify_pairing_equation(bound: u64, vk: G2View, m: nat, sig: BlsSignature)
    ensures
        bls_verify_spec(bound, vk, m, sig) is Ok <==> {
            &&& witness_relation(
                m,
                bound as nat,
                sig.hash_point@,
                sig.map_witness.tweak as nat,
                sig.map_witness.sqrt_witness@,
                sig.map_witness.x@,
            )
            &&& bn254_pairing(sig.sigma@, g2_generator_view()) == bn254_pairing(
                bn254_g1_mul(g1_generator_view(), sig.hash_point.x@),
                vk,
            )
        },
{
    assert(bound < fq_modulus());
    law_verify_is_relation(
        m,
        bound as nat,
        sig.hash_point@,
        sig.map_witness.tweak as nat,
        sig.map_witness.sqrt_witness@,
        sig.map_witness.x@,
    );
}

/// Both pairings of the verification are defined whenever the witness checks.
pub open spec fn bls_pairings_defined(bound: u64, vk: G2View, m: nat, sig: BlsSignature) -> bool {
    verify_spec(
        m,
        bound as nat,
        sig.hash_point@,
        sig.map_witness.tweak as nat,
        sig.map_witness.sqrt_witness@,
        sig.map_witness.x@,
    ) is Ok ==> {
        &&& bn254_pairing(sig.sigma@, g2_generator_view()) is Some
        &&& bn254_pairing(bls_hm(sig.hash_point.x@), vk) is Some
    }
}

/// The generator of G1 is a point of G1.
proof fn lemma_g1_generator_valid()
    ensures
        g1_valid(g1_generator_view()),
{
    reveal(bn254_fq_mul);
    reveal(bn254_fq_add);
}

/// Signing is deterministic: two signatures that `sign` returns for the
/// same message and secret key have the same point and the same `sigma`.
pub proof fn law_sign_deterministic(bound: u64, m: nat, sk: nat, s1: BlsSignature, s2: BlsSignature)
    requires
        map_output(m, bound, s1.hash_point, s1.map_witness),
        map_output(m, bound, s2.hash_point, s2.map_witness),
        s1.hm_bn254@ == bls_hm(s1.hash_point.x@),
        s2.hm_bn254@ == bls_hm(s2.hash_point.x@),
        s1.sigma@ == bn254_g1_mul(s1.hm_bn254@, sk),
        s2.sigma@ == bn254_g1_mul(s2.hm_bn254@, sk),
    ensures
        s1.hash_point@ == s2.hash_point@,
        s1.hm_bn254@ == s2.hm_bn254@,
        s1.sigma@ == s2.sigma@,
{
}

/// Whether two pairing values are equal, coordinate by coordinate.
fn same_values(a: &Vec<Bn254Fq>, b: &Vec<Bn254Fq>) -> (r: bool)
    ensures
        r == (a@.map_values(|f: Bn254Fq| f@) == b@.map_values(|f: Bn254Fq| f@)),
{
    if a.len() != b.len() {
        proof {
            assert(a@.map_values(|f: Bn254Fq| f@).len() != b@.map_values(|f: Bn254Fq| f@).len());
        }
        return false;
    }
    let mut i: usize = 0;
    while i < a.len()
        invariant
            a@.len() == b@.len(),
            i <= a@.len(),
            forall|j: int| 0 <= j < i ==> (#[trigger] a@[j])@ == b@[j]@,
        decreases a@.len() - i,
    {
        proof {
            Bn254Fq::lemma_view_eq(a@[i as int], b@[i as int]);
        }
        if a[i] != b[i] {
            proof {
                assert(a@.map_values(|f: Bn254Fq| f@)[i as int] != b@.map_values(|f: Bn254Fq| f@)[i as int]);
            }
            return false;
        }
        i = i + 1;
    }
    proof {
        assert(a@.map_values(|f: Bn254Fq| f@) =~= b@.map_values(|f: Bn254Fq| f@));
    }
    true
}

/// Relational BLS over the increment-and-check relation.
pub struct RelationalBls {
    mapper: IncrementAndCheck,
}

impl RelationalBls {
    /// The tweak bound of the relation messages are mapped with.
    pub closed spec fn tweak_bound(&self) -> u64 {
        self.mapper.tweak_bound
    }

    /// The scheme whose relation has tweak bound `tweak_bound`.
    pub fn new(tweak_bound: u64) -> (r: Self)
        ensures
            r.tweak_bound() == tweak_bound,
    {
        Self { mapper: IncrementAndCheck::new(tweak_bound) }
    }

    /// The point of G1 that the x-coordinate of `hash_point` is lifted to:
    /// the x-coordinate, read as a scalar, times the generator of G1.
    fn hash_to_g1(hash_point: &GPoint) -> (r: G1Point)
        ensures
            r@ == bls_hm(hash_point.x@),
            g1_valid(r@),
            bn254_pairing(r@, g2_generator_view()) is Some,
    {
        let x = hash_point.x;
        let x_bytes = x.to_bytes_le();
        let scalar = Fq::from_le_bytes_mod_order(x_bytes.as_slice());
        proof {
            use_type_invariant(&x);
            Fq::lemma_canonical(x);
            lemma_g1_generator_valid();
        }
        let g1 = G1Point::generator();
        g1.mul(&scalar)
    }

    /// Signs `message` with the secret key of `key`: the message is mapped to
    /// Grumpkin, lifted to `hm` in G1, and `sigma = sk * hm`. Fails when the
    /// message does not map. The signature always verifies under the key's
    /// verification key.
    pub fn sign(&self, key: &BlsKeyPair, message: Fq) -> (r: Result<BlsSignature, AtlasError>)
        ensures
            match r {
                Ok(sig) => {
                    &&& map_output(message@, self.tweak_bound(), sig.hash_point, sig.map_witness)
                    &&& sig.hm_bn254@ == bls_hm(sig.hash_point.x@)
                    &&& sig.sigma@ == bn254_g1_mul(sig.hm_bn254@, key.secret_key@)
                    &&& bls_pairings_defined(
                        self.tweak_bound(),
                        bn254_g2_mul(g2_generator_view(), key.secret_key@),
                        message@,
                        sig,
                    )
                    &&& bls_verify_spec(
                        self.tweak_bound(),
                        bn254_g2_mul(g2_generator_view(), key.secret_key@),
                        message@,
                        sig,
                    ) == Ok::<(), AtlasError>(())
                },
                Err(e) => map_spec(message@, self.tweak_bound() as nat) is None && e == map_failure(
                    self.tweak_bound(),
                ),
            },
    {
        let (hash_point, map_witness) = self.mapper.map(message)?;
        let hm_bn254 = Self::hash_to_g1(&hash_point);
        let sigma = hm_bn254.mul(&key.secret_key);
        Ok(BlsSignature { sigma, hash_point, map_witness, hm_bn254 })
    }

    /// Verifies `sig` for `message` under `vk`: the map-to-curve witness must
    /// check, and then `e(sigma, g2) = e(hm, vk)` with `hm` recomputed from the
    /// signature's point.
    pub fn verify(&self, vk: &G2Point, message: Fq, sig: &BlsSignature) -> (r: Result<(), AtlasError>)
        requires
            bls_pairings_defined(self.tweak_bound(), vk@, message@, *sig),
        ensures
            r == bls_verify_spec(self.tweak_bound(), vk@, message@, *sig),
            r is Ok <==> {
                &&& witness_relation(
                    message@,
                    self.tweak_bound() as nat,
                    sig.hash_point@,
                    sig.map_witness.tweak as nat,
                    sig.map_witness.sqrt_witness@,
                    sig.map_witness.x@,
                )
                &&& bn254_pairing(sig.sigma@, g2_generator_view()) == bn254_pairing(
                    bn254_g1_mul(g1_generator_view(), sig.hash_point.x@),
                    vk@,
                )
            },
    {
        proof {
            law_bls_verify_pairing_equation(self.tweak_bound(), vk@, message@, *sig);
        }
        self.mapper.verify(message, sig.hash_point, &sig.map_witness)?;
        let hm_bn254 = Self::hash_to_g1(&sig.hash_point);
        let g2 = G2Point::generator();
        let lhs = pairing(&sig.sigma, &g2);
        let rhs = pairing(&hm_bn254, vk);
        match (lhs, rhs) {
            (Some(l), Some(r)) => {
                if !same_values(&l, &r) {
                    return Err(
                        AtlasError::BlsError { reason: "pairing check failed: e(sigma,g2) != e(hm,vk)" },
                    );
                }
                Ok(())
            },
            _ => {
                proof {
                    assert(false);
                }
                Ok(())
            },
        }
    }

    /// `verify` where both pairings it needs are defined, and `None` where
    /// one is not.
    pub fn verify_checked(&self, vk: &G2Point, message: Fq, sig: &BlsSignature) -> (r: Option<
        Result<(), AtlasError>,
    >)
        ensures
            match r {
                Some(res) => bls_pairings_defined(self.tweak_bound(), vk@, message@, *sig) && res
                    == bls_verify_spec(self.tweak_bound(), vk@, message@, *sig),
                None => !bls_pairings_defined(self.tweak_bound(), vk@, message@, *sig),
            },
    {
        if self.mapper.verify(message, sig.hash_point, &sig.map_witness).is_ok() {
            let hm_bn254 = Self::hash_to_g1(&sig.hash_point);
            let g2 = G2Point::generator();
            if pairing(&sig.sigma, &g2).is_none() || pairing(&hm_bn254, vk).is_none() {
                return None;
            }
        }
        Some(self.verify(vk, message, sig))
    }

    /// Compresses a nonempty `message` and signs the compressed value;
    /// returns the signature with the compression witness. Fails on an empty
    /// message or when the compressed value does not map. The signature
    /// always verifies, under the key's verification key, for the value
    /// recomputed from the witness.
    pub fn sign_large(&self, key: &BlsKeyPair, message: &[u8]) -> (r: Result<
        (BlsSignature, LargeMessageWitness),
        AtlasError,
    >)
        ensures
            message@.len() == 0 ==> r == Err::<(BlsSignature, LargeMessageWitness), AtlasError>(
                AtlasError::MessageOutOfRange { max_bits: 0 },
            ),
            message@.len() > 0 ==> {
                let c = weighted_sum(chunk_values(message@), challenge_spec(message@)) % fq_modulus();
                match r {
                    Ok((sig, w)) => {
                        &&& values(w.chunks@) == chunk_values(message@)
                        &&& w.challenge@ == challenge_spec(message@)
                        &&& w.challenge@ == le_value(sha256_spec(message@)) % fq_modulus()
                        &&& w.chunks@.len() > 0
                        &&& map_output(c, self.tweak_bound(), sig.hash_point, sig.map_witness)
                        &&& sig.hm_bn254@ == bls_hm(sig.hash_point.x@)
                        &&& sig.sigma@ == bn254_g1_mul(sig.hm_bn254@, key.secret_key@)
                        &&& bls_pairings_defined(
                            self.tweak_bound(),
                            bn254_g2_mul(g2_generator_view(), key.secret_key@),
                            c,
                            sig,
                        )
                        &&& bls_verify_spec(
                            self.tweak_bound(),
                            bn254_g2_mul(g2_generator_view(), key.secret_key@),
                            c,
                            sig,
                        ) == Ok::<(), AtlasError>(())
                    },
                    Err(e) => map_spec(c, self.tweak_bound() as nat) is None && e == map_failure(
                        self.tweak_bound(),
                    ),
                }
            },
    {
        let (compressed, witness) = compress(message)?;
        proof {
            assert(chunk_values(message@).len() > 0);
            assert(values(witness.chunks@).len() == witness.chunks@.len());
        }
        let sig = self.sign(key, compressed)?;
        Ok((sig, witness))
    }

    /// Recomputes the compressed value from `witness` and verifies `sig` for
    /// it under `vk`; fails when the witness has no chunks. The message
    /// itself is not read.
    pub fn verify_large(
        &self,
        vk: &G2Point,
        message: &[u8],
        sig: &BlsSignature,
        witness: &LargeMessageWitness,
    ) -> (r: Result<(), AtlasError>)
        requires
            witness.chunks@.len() > 0 ==> bls_pairings_defined(
                self.tweak_bound(),
                vk@,
                weighted_sum(values(witness.chunks@), witness.challenge@) % fq_modulus(),
                *sig,
            ),
        ensures
            witness.chunks@.len() == 0 ==> r == Err::<(), AtlasError>(
                AtlasError::MessageOutOfRange { max_bits: 0 },
            ),
            witness.chunks@.len() > 0 ==> r == bls_verify_spec(
                self.tweak_bound(),
                vk@,
                weighted_sum(values(witness.chunks@), witness.challenge@) % fq_modulus(),
                *sig,
            ),            r is Ok <==> {
                &&& witness.chunks@.len() > 0
                &&& witness_relation(
                    weighted_sum(values(witness.chunks@), witness.challenge@) % fq_modulus(),
                    self.tweak_bound() as nat,
                    sig.hash_point@,
                    sig.map_witness.tweak as nat,
                    sig.map_witness.sqrt_witness@,
                    sig.map_witness.x@,
                )
                &&& bn254_pairing(sig.sigma@, g2_generator_view()) == bn254_pairing(
                    bn254_g1_mul(g1_generator_view(), sig.hash_point.x@),
                    vk@,
                )
            },
    {
        proof {
            law_bls_verify_pairing_equation(
                self.tweak_bound(),
                vk@,
                weighted_sum(values(witness.chunks@), witness.challenge@) % fq_modulus(),
                *sig,
            );
        }
        let compressed = recompute(witness.chunks.as_slice(), &witness.challenge)?;
        self.verify(vk, compressed, sig)
    }

    /// `verify_large` where the pairings it needs are defined, and `None`
    /// where one is not.
    pub fn verify_large_checked(
        &self,
        vk: &G2Point,
        message: &[u8],
        sig: &BlsSignature,
        witness: &LargeMessageWitness,
    ) -> (r: Option<Result<(), AtlasError>>)
        ensures
            match r {
                Some(res) => {
                    &&& witness.chunks@.len() == 0 ==> res == Err::<(), AtlasError>(
                        AtlasError::MessageOutOfRange { max_bits: 0 },
                    )
                    &&& witness.chunks@.len() > 0 ==> res == bls_verify_spec(
                        self.tweak_bound(),
                        vk@,
                        weighted_sum(values(witness.chunks@), witness.challenge@) % fq_modulus(),
                        *sig,
                    )
                },
                None => witness.chunks@.len() > 0 && !bls_pairings_defined(
                    self.tweak_bound(),
                    vk@,
                    weighted_sum(values(witness.chunks@), witness.challenge@) % fq_modulus(),
                    *sig,
                ),
            },
    {
        match recompute(witness.chunks.as_slice(), &witness.challenge) {
            Err(e) => Some(Err(e)),
            Ok(compressed) => match self.verify_checked(vk, compressed, sig) {
                None => None,
                Some(_) => Some(self.verify_large(vk, message, sig, witness)),
            },
        }
    }
}

} // verus!
