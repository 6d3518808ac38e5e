//! Points of the BN254 groups G1 and G2 and the pairing between them, as
//! computed by arkworks.

use vstd::prelude::*;
use ark_ec::{AffineRepr, CurveGroup};
use ark_ec::pairing::Pairing;
use ark_ff::{BigInt, Field, PrimeField};
use ark_bn254::{Bn254, Fq as ArkFq, Fq2 as ArkFq2, Fr as ArkFr, G1Affine, G2Affine};
use crate::field::{Bn254Fq, Fq, bn254_fq_modulus, bn254_fq_add, bn254_fq_mul, limbs_value};

verus! {

/// A point of the BN254 curve over the base field: x, y and the infinity flag.
pub type G1View = (nat, nat, bool);

/// A point of the BN254 twist over the quadratic extension: the two
/// components of x, the two of y, and the infinity flag.
pub type G2View = (nat, nat, nat, nat, bool);

/// The generator of G1: `(1, 2)`.
pub open spec fn g1_generator_view() -> G1View {
    (1nat, 2nat, false)
}

/// The generator of G2.
pub open spec fn g2_generator_view() -> G2View {
    (
        10857046999023057135944570762232829481370756359578518086990519993285655852781nat,
        11559732032986387107991004021392285783925812861821192530917403151452391805634nat,
        8495653923123431417604973247489272438418190587263600148770280649306958101930nat,
        4082367875863433681332203403145435568316851327593401208105741076214120093531nat,
        false,
    )
}

/// A point of G1: the point at infinity with zero coordinates, or a point of
/// the curve `y^2 = x^3 + 3` (G1 has cofactor one).
pub open spec fn g1_valid(p: G1View) -> bool {
    if p.2 {
        p.0 == 0 && p.1 == 0
    } else {
        bn254_fq_mul(p.1, p.1) == bn254_fq_add(bn254_fq_mul(bn254_fq_mul(p.0, p.0), p.0), 3)
    }
}

/// The multiple `k * p` of a point of the curve, in normal affine form.
pub uninterp spec fn bn254_g1_mul(p: G1View, k: nat) -> G1View;

/// The multiple `k * q` of a point of the twist, in normal affine form.
pub uninterp spec fn bn254_g2_mul(q: G2View, k: nat) -> G2View;

/// The optimal ate pairing of `p` and `q`, as the twelve base-field
/// coordinates of the target field element; `None` where the final
/// exponentiation finds a zero Miller loop output.
pub uninterp spec fn bn254_pairing(p: G1View, q: G2View) -> Option<Seq<nat>>;

/// The values of a sequence of limb arrays.
pub open spec fn limbs_values(s: Seq<[u64; 4]>) -> Seq<nat> {
    s.map_values(|l: [u64; 4]| limbs_value(l))
}

/// A point of G1 held as field elements.
#[derive(Clone, Copy, Debug, PartialEq, Eq, Structural)]
pub struct G1Point {
    pub x: Bn254Fq,
    pub y: Bn254Fq,
    pub infinity: bool,
}

/// A point of G2 held as field elements: `x = x_c0 + x_c1 * u`, likewise `y`.
#[derive(Clone, Copy, Debug, PartialEq, Eq, Structural)]
pub struct G2Point {
    pub x_c0: Bn254Fq,
    pub x_c1: Bn254Fq,
    pub y_c0: Bn254Fq,
    pub y_c1: Bn254Fq,
    pub infinity: bool,
}

impl View for G1Point {
    type V = G1View;

    open spec fn view(&self) -> G1View {
        (self.x@, self.y@, self.infinity)
    }
}

impl View for G2Point {
    type V = G2View;

    open spec fn view(&self) -> G2View {
        (self.x_c0@, self.x_c1@, self.y_c0@, self.y_c1@, self.infinity)
    }
}

/// Coordinates of a G1 point as limbs, with the infinity flag.
type G1Limbs = ([u64; 4], [u64; 4], bool);

/// Coordinates of a G2 point as limbs, with the infinity flag.
type G2Limbs = ([u64; 4], [u64; 4], [u64; 4], [u64; 4], bool);

/// The view of G1 limbs.
pub open spec fn g1_limbs_view(p: ([u64; 4], [u64; 4], bool)) -> G1View {
    (limbs_value(p.0), limbs_value(p.1), p.2)
}

/// The view of G2 limbs.
pub open spec fn g2_limbs_view(q: ([u64; 4], [u64; 4], [u64; 4], [u64; 4], bool)) -> G2View {
    (limbs_value(q.0), limbs_value(q.1), limbs_value(q.2), limbs_value(q.3), q.4)
}

/// G1 limbs whose coordinates are canonical.
pub open spec fn g1_limbs_canonical(p: ([u64; 4], [u64; 4], bool)) -> bool {
    limbs_value(p.0) < bn254_fq_modulus() && limbs_value(p.1) < bn254_fq_modulus()
}

/// G2 limbs whose coordinates are canonical.
pub open spec fn g2_limbs_canonical(q: ([u64; 4], [u64; 4], [u64; 4], [u64; 4], bool)) -> bool {
    &&& limbs_value(q.0) < bn254_fq_modulus()
    &&& limbs_value(q.1) < bn254_fq_modulus()
    &&& limbs_value(q.2) < bn254_fq_modulus()
    &&& limbs_value(q.3) < bn254_fq_modulus()
}

impl G1Point {
    fn limbs(&self) -> (r: G1Limbs)
        ensures
            g1_limbs_view(r) == self@,
    {
        (self.x.limbs(), self.y.limbs(), self.infinity)
    }

    fn from_limbs(p: G1Limbs) -> (r: G1Point)
        requires
            g1_limbs_canonical(p),
        ensures
            r@ == g1_limbs_view(p),
    {
        G1Point {
            x: Bn254Fq::from_canonical_limbs(p.0),
            y: Bn254Fq::from_canonical_limbs(p.1),
            infinity: p.2,
        }
    }

    /// The generator of G1.
    pub fn generator() -> (r: G1Point)
        ensures
            r@ == g1_generator_view(),
    {
        G1Point::from_limbs(ark_g1_generator())
    }

    /// The multiple `k * self`. For a point of G1 the multiple is one too,
    /// and pairing it with the generator of G2 is defined and equals pairing
    /// `self` with `k` times that generator.
    pub fn mul(&self, k: &Fq) -> (r: G1Point)
        ensures
            r@ == bn254_g1_mul(self@, k@),
            g1_valid(self@) ==> {
                &&& g1_valid(r@)
                &&& bn254_pairing(r@, g2_generator_view()) is Some
                &&& bn254_pairing(r@, g2_generator_view()) == bn254_pairing(
                    self@,
                    bn254_g2_mul(g2_generator_view(), k@),
                )
            },
    {
        G1Point::from_limbs(ark_g1_mul(self.limbs(), k.limbs()))
    }
}

impl G2Point {
    fn limbs(&self) -> (r: G2Limbs)
        ensures
            g2_limbs_view(r) == self@,
    {
        (self.x_c0.limbs(), self.x_c1.limbs(), self.y_c0.limbs(), self.y_c1.limbs(), self.infinity)
    }

    fn from_limbs(q: G2Limbs) -> (r: G2Point)
        requires
            g2_limbs_canonical(q),
        ensures
            r@ == g2_limbs_view(q),
    {
        G2Point {
            x_c0: Bn254Fq::from_canonical_limbs(q.0),
            x_c1: Bn254Fq::from_canonical_limbs(q.1),
            y_c0: Bn254Fq::from_canonical_limbs(q.2),
            y_c1: Bn254Fq::from_canonical_limbs(q.3),
            infinity: q.4,
        }
    }

    /// The generator of G2.
    pub fn generator() -> (r: G2Point)
        ensures
            r@ == g2_generator_view(),
    {
        G2Point::from_limbs(ark_g2_generator())
    }

    /// The multiple `k * self`.
    pub fn mul(&self, k: &Fq) -> (r: G2Point)
        ensures
            r@ == bn254_g2_mul(self@, k@),
    {
        G2Point::from_limbs(ark_g2_mul(self.limbs(), k.limbs()))
    }
}

/// The pairing of `p` and `q` as twelve base-field elements, or `None` where
/// it is undefined.
pub fn pairing(p: &G1Point, q: &G2Point) -> (r: Option<Vec<Bn254Fq>>)
    ensures
        match r {
            Some(v) => bn254_pairing(p@, q@) == Some(v@.map_values(|f: Bn254Fq| f@)),
            None => bn254_pairing(p@, q@) is None,
        },
{
    match ark_pairing(p.limbs(), q.limbs()) {
        None => None,
        Some(limbs) => {
            let mut v: Vec<Bn254Fq> = Vec::new();
            let mut i: usize = 0;
            while i < limbs.len()
                invariant
                    i <= limbs@.len(),
                    forall|j: int| 0 <= j < limbs@.len() ==> limbs_value(#[trigger] limbs@[j]) < bn254_fq_modulus(),
                    v@.len() == i,
                    forall|j: int| 0 <= j < i ==> (#[trigger] v@[j])@ == limbs_value(limbs@[j]),
                decreases limbs@.len() - i,
            {
                v.push(Bn254Fq::from_canonical_limbs(limbs[i]));
                i = i + 1;
            }
            proof {
                assert(v@.map_values(|f: Bn254Fq| f@) =~= limbs_values(limbs@));
            }
            Some(v)
        },
    }
}

/// `G1Affine::generator` of BN254: claims the point `(1, 2)`.
#[verifier::external_body]
fn ark_g1_generator() -> (r: G1Limbs)
    ensures
        g1_limbs_canonical(r),
        g1_limbs_view(r) == g1_generator_view(),
{
    let g = G1Affine::generator();
    (g.x.into_bigint().0, g.y.into_bigint().0, g.infinity)
}

/// `G2Affine::generator` of BN254: claims its published coordinates.
#[verifier::external_body]
fn ark_g2_generator() -> (r: G2Limbs)
    ensures
        g2_limbs_canonical(r),
        g2_limbs_view(r) == g2_generator_view(),
{
    let g = G2Affine::generator();
    let (x, y) = (g.x, g.y);
    (x.c0.into_bigint().0, x.c1.into_bigint().0, y.c0.into_bigint().0, y.c1.into_bigint().0, g.infinity)
}

/// `(p.into_group() * k).into_affine()` on BN254 G1, with `k` a scalar-field
/// element given by canonical limbs. Claims canonical coordinates, a result
/// that depends on `p` and `k` alone (named `bn254_g1_mul`), and, for a point
/// of G1: a point of G1 whose pairing with the G2 generator is defined and
/// equals the pairing of `p` with `k` times that generator (bilinearity).
#[verifier::external_body]
fn ark_g1_mul(p: G1Limbs, k: [u64; 4]) -> (r: G1Limbs)
    ensures
        g1_limbs_canonical(r),
        g1_limbs_view(r) == bn254_g1_mul(g1_limbs_view(p), limbs_value(k)),
        g1_valid(g1_limbs_view(p)) ==> {
            &&& g1_valid(g1_limbs_view(r))
            &&& bn254_pairing(g1_limbs_view(r), g2_generator_view()) is Some
            &&& bn254_pairing(g1_limbs_view(r), g2_generator_view()) == bn254_pairing(
                g1_limbs_view(p),
                bn254_g2_mul(g2_generator_view(), limbs_value(k)),
            )
        },
{
    let pa = G1Affine { x: ArkFq::new(BigInt(p.0)), y: ArkFq::new(BigInt(p.1)), infinity: p.2 };
    let s = (pa.into_group() * ArkFr::new(BigInt(k))).into_affine();
    (s.x.into_bigint().0, s.y.into_bigint().0, s.infinity)
}

/// `(q.into_group() * k).into_affine()` on BN254 G2, with `k` a scalar-field
/// element given by canonical limbs. Claims canonical coordinates and a
/// result that depends on `q` and `k` alone (named `bn254_g2_mul`).
#[verifier::external_body]
fn ark_g2_mul(q: G2Limbs, k: [u64; 4]) -> (r: G2Limbs)
    ensures
        g2_limbs_canonical(r),
        g2_limbs_view(r) == bn254_g2_mul(g2_limbs_view(q), limbs_value(k)),
{
    let x = ArkFq2::new(ArkFq::new(BigInt(q.0)), ArkFq::new(BigInt(q.1)));
    let y = ArkFq2::new(ArkFq::new(BigInt(q.2)), ArkFq::new(BigInt(q.3)));
    let s = (G2Affine { x, y, infinity: q.4 }.into_group() * ArkFr::new(BigInt(k))).into_affine();
    (s.x.c0.into_bigint().0, s.x.c1.into_bigint().0, s.y.c0.into_bigint().0, s.y.c1.into_bigint().0, s.infinity)
}

/// `Bn254::final_exponentiation(Bn254::multi_miller_loop([p], [q]))`, which is
/// `Bn254::pairing(p, q)` before its unwrap. Claims the canonical base-field
/// coordinates of the target field element, or `None`, as a function of `p`
/// and `q` alone (named `bn254_pairing`).
#[verifier::external_body]
fn ark_pairing(p: G1Limbs, q: G2Limbs) -> (r: Option<Vec<[u64; 4]>>)
    ensures
        match r {
            Some(v) => {
                &&& forall|j: int| 0 <= j < v@.len() ==> limbs_value(#[trigger] v@[j]) < bn254_fq_modulus()
                &&& bn254_pairing(g1_limbs_view(p), g2_limbs_view(q)) == Some(limbs_values(v@))
            },
            None => bn254_pairing(g1_limbs_view(p), g2_limbs_view(q)) is None,
        },
{
    let pa = G1Affine { x: ArkFq::new(BigInt(p.0)), y: ArkFq::new(BigInt(p.1)), infinity: p.2 };
    let x = ArkFq2::new(ArkFq::new(BigInt(q.0)), ArkFq::new(BigInt(q.1)));
    let y = ArkFq2::new(ArkFq::new(BigInt(q.2)), ArkFq::new(BigInt(q.3)));
    let out = Bn254::final_exponentiation(Bn254::multi_miller_loop([pa], [G2Affine { x, y, infinity: q.4 }]));
    let e = out?;
    let mut v = Vec::new();
    for f in e.0.to_base_prime_field_elements() {
        v.push(f.into_bigint().0);
    }
    Some(v)
}

} // verus!
