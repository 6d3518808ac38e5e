//! Prime-field elements held as four little-endian 64-bit limbs.
//!
//! `Fq` is the base field of the Grumpkin curve, which is the scalar field
//! of BN254; `Bn254Fq` is the base field of BN254. Arithmetic is carried
//! out by arkworks; every element held here is canonical (below its modulus).

use vstd::prelude::*;
use ark_ff::PrimeField;
use crate::hash::{sha256, sha256_spec};

verus! {

/// The order of the Grumpkin base field (the BN254 scalar field).
pub open spec fn fq_modulus() -> nat {
    21888242871839275222246405745257275088548364400416034343698204186575808495617nat
}

/// The order of the BN254 base field.
pub open spec fn bn254_fq_modulus() -> nat {
    21888242871839275222246405745257275088696311157297823662689037894645226208583nat
}

/// 2^64, the radix of a limb.
pub open spec fn limb_base() -> nat {
    0x1_0000_0000_0000_0000
}

/// The integer that four little-endian 64-bit limbs stand for.
pub open spec fn limbs_value(l: [u64; 4]) -> nat {
    (l[0] as nat + limb_base() * (l[1] as nat + limb_base() * (l[2] as nat + limb_base()
        * (l[3] as nat)))) as nat
}

/// The integer that a little-endian byte string stands for.
pub open spec fn le_value(s: Seq<u8>) -> nat
    decreases s.len(),
{
    if s.len() == 0 {
        0
    } else {
        (s[0] as nat + 256 * le_value(s.drop_first())) as nat
    }
}

/// Sum in the Grumpkin base field.
#[verifier::opaque]
pub open spec fn fq_add(a: nat, b: nat) -> nat {
    (a + b) % fq_modulus()
}

/// Product in the Grumpkin base field.
#[verifier::opaque]
pub open spec fn fq_mul(a: nat, b: nat) -> nat {
    (a * b) % fq_modulus()
}

/// Additive inverse in the Grumpkin base field.
#[verifier::opaque]
pub open spec fn fq_neg(a: nat) -> nat {
    ((fq_modulus() - a % fq_modulus()) as nat) % fq_modulus()
}

/// `a` has a square root in the Grumpkin base field.
pub open spec fn is_square(a: nat) -> bool {
    exists|y: nat| #[trigger] fq_mul(y, y) == a
}

/// The square root of a square `a` that the field's `sqrt` hands back.
pub uninterp spec fn fq_sqrt_root(a: nat) -> nat;

/// Sum in the BN254 base field.
#[verifier::opaque]
pub open spec fn bn254_fq_add(a: nat, b: nat) -> nat {
    (a + b) % bn254_fq_modulus()
}

/// Product in the BN254 base field.
#[verifier::opaque]
pub open spec fn bn254_fq_mul(a: nat, b: nat) -> nat {
    (a * b) % bn254_fq_modulus()
}

/// Two expansions `lo + base * hi` with `lo < base` agree digit by digit.
pub proof fn lemma_radix_unique(a0: nat, r0: nat, a1: nat, r1: nat, base: nat)
    requires
        a0 < base,
        a1 < base,
        a0 + base * r0 == a1 + base * r1,
    ensures
        a0 == a1,
        r0 == r1,
{
    if r0 < r1 {
        assert(base * r0 + base <= base * r1) by (nonlinear_arith)
            requires
                r0 < r1,
        ;
    } else if r1 < r0 {
        assert(base * r1 + base <= base * r0) by (nonlinear_arith)
            requires
                r1 < r0,
        ;
    }
}

/// Distinct limb arrays stand for distinct integers.
pub proof fn lemma_limbs_value_injective(a: [u64; 4], b: [u64; 4])
    requires
        limbs_value(a) == limbs_value(b),
    ensures
        a == b,
{
    let ra2 = a[2] as nat + limb_base() * (a[3] as nat);
    let rb2 = b[2] as nat + limb_base() * (b[3] as nat);
    let ra1 = a[1] as nat + limb_base() * ra2;
    let rb1 = b[1] as nat + limb_base() * rb2;
    lemma_radix_unique(a[0] as nat, ra1, b[0] as nat, rb1, limb_base());
    lemma_radix_unique(a[1] as nat, ra2, b[1] as nat, rb2, limb_base());
    lemma_radix_unique(a[2] as nat, a[3] as nat, b[2] as nat, b[3] as nat, limb_base());
    assert(a =~= b);
}

/// An element of the Grumpkin base field (the BN254 scalar field).
#[derive(Clone, Copy, Debug, PartialEq, Eq, Structural)]
pub struct Fq {
    pub(crate) l0: u64,
    pub(crate) l1: u64,
    pub(crate) l2: u64,
    pub(crate) l3: u64,
}

impl View for Fq {
    type V = nat;

    closed spec fn view(&self) -> nat {
        limbs_value([self.l0, self.l1, self.l2, self.l3])
    }
}

impl Fq {
    #[verifier::type_invariant]
    pub closed spec fn canonical(self) -> bool {
        limbs_value([self.l0, self.l1, self.l2, self.l3]) < fq_modulus()
    }

    /// The value of an element that meets the type invariant is below the modulus.
    pub proof fn lemma_canonical(a: Fq)
        requires
            a.canonical(),
        ensures
            a@ < fq_modulus(),
    {
    }

    /// Two elements are equal exactly when their values are.
    pub proof fn lemma_view_eq(a: Fq, b: Fq)
        ensures
            (a@ == b@) <==> (a == b),
    {
        if a@ == b@ {
            lemma_limbs_value_injective([a.l0, a.l1, a.l2, a.l3], [b.l0, b.l1, b.l2, b.l3]);
        }
    }

    /// The limbs of the value, least significant first.
    pub fn limbs(&self) -> (r: [u64; 4])
        ensures
            limbs_value(r) == self@,
    {
        [self.l0, self.l1, self.l2, self.l3]
    }

    /// The element held by canonical limbs.
    pub(crate) fn from_canonical_limbs(l: [u64; 4]) -> (r: Fq)
        requires
            limbs_value(l) < fq_modulus(),
        ensures
            r@ == limbs_value(l),
    {
        Fq { l0: l[0], l1: l[1], l2: l[2], l3: l[3] }
    }

    /// The element with value `v`.
    pub fn from_u64(v: u64) -> (r: Fq)
        ensures
            r@ == v,
    {
        Fq { l0: v, l1: 0, l2: 0, l3: 0 }
    }

    /// The element with value `v`, read modulo the field order.
    pub fn from_i64(v: i64) -> (r: Fq)
        ensures
            r@ == (if v >= 0 {
                v as nat
            } else {
                fq_neg((-v) as nat)
            }),
    {
        if v >= 0 {
            Fq::from_u64(v as u64)
        } else {
            let abs: u64 = (-(v as i128)) as u64;
            Fq::from_u64(abs).negate()
        }
    }

    /// The element with value `v`, built from its two 64-bit halves as
    /// `lo + hi * 2^64`.
    pub fn from_u128(v: u128) -> (r: Fq)
        ensures
            r@ == v,
    {
        let lo = v as u64;
        let hi = (v >> 64) as u64;
        let two64 = Fq::from_u64(u64::MAX).plus(&Fq::from_u64(1));
        let r = Fq::from_u64(lo).plus(&Fq::from_u64(hi).times(&two64));
        proof {
            reveal(fq_add);
            reveal(fq_mul);
            assert(lo + hi * 0x1_0000_0000_0000_0000 == v) by (bit_vector)
                requires
                    lo == v as u64,
                    hi == (v >> 64) as u64,
            ;
            assert(two64@ == 0x1_0000_0000_0000_0000);
            assert(hi * 0x1_0000_0000_0000_0000 < fq_modulus());
        }
        r
    }

    /// The zero element.
    pub fn zero() -> (r: Fq)
        ensures
            r@ == 0,
    {
        Fq { l0: 0, l1: 0, l2: 0, l3: 0 }
    }

    /// The element `self + other`.
    pub fn plus(&self, other: &Fq) -> (r: Fq)
        ensures
            r@ == fq_add(self@, other@),
    {
        ark_fq_add(self, other)
    }

    /// The element `self * other`.
    pub fn times(&self, other: &Fq) -> (r: Fq)
        ensures
            r@ == fq_mul(self@, other@),
    {
        ark_fq_mul(self, other)
    }

    /// The element `self * self`.
    pub fn square(&self) -> (r: Fq)
        ensures
            r@ == fq_mul(self@, self@),
    {
        ark_fq_mul(self, self)
    }

    /// The element `-self`.
    pub fn negate(&self) -> (r: Fq)
        ensures
            r@ == fq_neg(self@),
    {
        ark_fq_neg(self)
    }

    /// A square root of `self`, if there is one.
    pub fn sqrt(&self) -> (r: Option<Fq>)
        ensures
            r is Some <==> is_square(self@),
            r matches Some(z) ==> fq_mul(z@, z@) == self@ && z@ == fq_sqrt_root(self@),
    {
        ark_fq_sqrt(self)
    }

    /// The element whose value is the little-endian integer `bytes`,
    /// reduced modulo the field order.
    pub fn from_le_bytes_mod_order(bytes: &[u8]) -> (r: Fq)
        ensures
            r@ == le_value(bytes@) % fq_modulus(),
    {
        ark_fq_from_le_bytes(bytes)
    }

    /// The 32 little-endian bytes of the value of `self`.
    pub fn to_bytes_le(&self) -> (r: Vec<u8>)
        ensures
            r@.len() == 32,
            le_value(r@) == self@,
    {
        ark_fq_to_bytes(self)
    }
}

/// `ark_bn254::Fr` addition; claims the sum modulo the field order.
#[verifier::external_body]
fn ark_fq_add(a: &Fq, b: &Fq) -> (r: Fq)
    ensures
        r@ == fq_add(a@, b@),
{
    let x = ark_bn254::Fr::new(ark_ff::BigInt::new([a.l0, a.l1, a.l2, a.l3]));
    let y = ark_bn254::Fr::new(ark_ff::BigInt::new([b.l0, b.l1, b.l2, b.l3]));
    let l = (x + y).into_bigint().0;
    Fq { l0: l[0], l1: l[1], l2: l[2], l3: l[3] }
}

/// `ark_bn254::Fr` multiplication; claims the product modulo the field order.
#[verifier::external_body]
fn ark_fq_mul(a: &Fq, b: &Fq) -> (r: Fq)
    ensures
        r@ == fq_mul(a@, b@),
{
    let x = ark_bn254::Fr::new(ark_ff::BigInt::new([a.l0, a.l1, a.l2, a.l3]));
    let y = ark_bn254::Fr::new(ark_ff::BigInt::new([b.l0, b.l1, b.l2, b.l3]));
    let l = (x * y).into_bigint().0;
    Fq { l0: l[0], l1: l[1], l2: l[2], l3: l[3] }
}

/// `ark_bn254::Fr` negation; claims the additive inverse modulo the field order.
#[verifier::external_body]
fn ark_fq_neg(a: &Fq) -> (r: Fq)
    ensures
        r@ == fq_neg(a@),
{
    let x = ark_bn254::Fr::new(ark_ff::BigInt::new([a.l0, a.l1, a.l2, a.l3]));
    let l = (-x).into_bigint().0;
    Fq { l0: l[0], l1: l[1], l2: l[2], l3: l[3] }
}

/// `ark_ff::Field::sqrt` on `ark_bn254::Fr`: claims a root exactly when `a` is
/// a square, that the root squares to `a`, and that which root comes back
/// depends on `a` alone (it is named `fq_sqrt_root`).
#[verifier::external_body]
fn ark_fq_sqrt(a: &Fq) -> (r: Option<Fq>)
    ensures
        r is Some <==> is_square(a@),
        r matches Some(z) ==> fq_mul(z@, z@) == a@ && z@ == fq_sqrt_root(a@),
{
    let x = ark_bn254::Fr::new(ark_ff::BigInt::new([a.l0, a.l1, a.l2, a.l3]));
    match ark_ff::Field::sqrt(&x) {
        Some(z) => {
            let l = z.into_bigint().0;
            Some(Fq { l0: l[0], l1: l[1], l2: l[2], l3: l[3] })
        },
        None => None,
    }
}

/// `PrimeField::from_le_bytes_mod_order` on `ark_bn254::Fr`: claims the
/// little-endian value of the bytes reduced modulo the field order.
#[verifier::external_body]
fn ark_fq_from_le_bytes(bytes: &[u8]) -> (r: Fq)
    ensures
        r@ == le_value(bytes@) % fq_modulus(),
{
    let l = ark_bn254::Fr::from_le_bytes_mod_order(bytes).into_bigint().0;
    Fq { l0: l[0], l1: l[1], l2: l[2], l3: l[3] }
}

/// `BigInteger::to_bytes_le` of `ark_bn254::Fr::into_bigint`: claims the 32
/// little-endian bytes of the element's value.
#[verifier::external_body]
fn ark_fq_to_bytes(a: &Fq) -> (r: Vec<u8>)
    ensures
        r@.len() == 32,
        le_value(r@) == a@,
{
    let x = ark_bn254::Fr::new(ark_ff::BigInt::new([a.l0, a.l1, a.l2, a.l3]));
    ark_ff::BigInteger::to_bytes_le(&x.into_bigint())
}

/// An element of the BN254 base field.
#[derive(Clone, Copy, Debug, PartialEq, Eq, Structural)]
pub struct Bn254Fq {
    pub(crate) l0: u64,
    pub(crate) l1: u64,
    pub(crate) l2: u64,
    pub(crate) l3: u64,
}

impl View for Bn254Fq {
    type V = nat;

    closed spec fn view(&self) -> nat {
        limbs_value([self.l0, self.l1, self.l2, self.l3])
    }
}

impl Bn254Fq {
    #[verifier::type_invariant]
    closed spec fn canonical(self) -> bool {
        limbs_value([self.l0, self.l1, self.l2, self.l3]) < bn254_fq_modulus()
    }

    /// Two elements are equal exactly when their values are.
    pub proof fn lemma_view_eq(a: Bn254Fq, b: Bn254Fq)
        ensures
            (a@ == b@) <==> (a == b),
    {
        if a@ == b@ {
            lemma_limbs_value_injective([a.l0, a.l1, a.l2, a.l3], [b.l0, b.l1, b.l2, b.l3]);
        }
    }

    /// The limbs of the value, least significant first.
    pub fn limbs(&self) -> (r: [u64; 4])
        ensures
            limbs_value(r) == self@,
    {
        [self.l0, self.l1, self.l2, self.l3]
    }

    /// The element held by canonical limbs.
    pub(crate) fn from_canonical_limbs(l: [u64; 4]) -> (r: Bn254Fq)
        requires
            limbs_value(l) < bn254_fq_modulus(),
        ensures
            r@ == limbs_value(l),
    {
        Bn254Fq { l0: l[0], l1: l[1], l2: l[2], l3: l[3] }
    }

    /// The element with value `v`.
    pub fn from_u64(v: u64) -> (r: Bn254Fq)
        ensures
            r@ == v,
    {
        Bn254Fq { l0: v, l1: 0, l2: 0, l3: 0 }
    }

    /// The zero element.
    pub fn zero() -> (r: Bn254Fq)
        ensures
            r@ == 0,
    {
        Bn254Fq { l0: 0, l1: 0, l2: 0, l3: 0 }
    }

    /// The element `self + other`.
    pub fn plus(&self, other: &Bn254Fq) -> (r: Bn254Fq)
        ensures
            r@ == bn254_fq_add(self@, other@),
    {
        ark_bn_fq_add(self, other)
    }

    /// The element `self * other`.
    pub fn times(&self, other: &Bn254Fq) -> (r: Bn254Fq)
        ensures
            r@ == bn254_fq_mul(self@, other@),
    {
        ark_bn_fq_mul(self, other)
    }

    /// The element whose value is the little-endian integer `bytes`,
    /// reduced modulo the field order.
    pub fn from_le_bytes_mod_order(bytes: &[u8]) -> (r: Bn254Fq)
        ensures
            r@ == le_value(bytes@) % bn254_fq_modulus(),
    {
        ark_bn_fq_from_le_bytes(bytes)
    }

    /// The 32 little-endian bytes of the value of `self`.
    pub fn to_bytes_le(&self) -> (r: Vec<u8>)
        ensures
            r@.len() == 32,
            le_value(r@) == self@,
    {
        ark_bn_fq_to_bytes(self)
    }
}

/// `ark_bn254::Fq` addition; claims the sum modulo the field order.
#[verifier::external_body]
fn ark_bn_fq_add(a: &Bn254Fq, b: &Bn254Fq) -> (r: Bn254Fq)
    ensures
        r@ == bn254_fq_add(a@, b@),
{
    let x = ark_bn254::Fq::new(ark_ff::BigInt::new([a.l0, a.l1, a.l2, a.l3]));
    let y = ark_bn254::Fq::new(ark_ff::BigInt::new([b.l0, b.l1, b.l2, b.l3]));
    let l = (x + y).into_bigint().0;
    Bn254Fq { l0: l[0], l1: l[1], l2: l[2], l3: l[3] }
}

/// `ark_bn254::Fq` multiplication; claims the product modulo the field order.
#[verifier::external_body]
fn ark_bn_fq_mul(a: &Bn254Fq, b: &Bn254Fq) -> (r: Bn254Fq)
    ensures
        r@ == bn254_fq_mul(a@, b@),
{
    let x = ark_bn254::Fq::new(ark_ff::BigInt::new([a.l0, a.l1, a.l2, a.l3]));
    let y = ark_bn254::Fq::new(ark_ff::BigInt::new([b.l0, b.l1, b.l2, b.l3]));
    let l = (x * y).into_bigint().0;
    Bn254Fq { l0: l[0], l1: l[1], l2: l[2], l3: l[3] }
}

/// `PrimeField::from_le_bytes_mod_order` on `ark_bn254::Fq`: claims the
/// little-endian value of the bytes reduced modulo the field order.
#[verifier::external_body]
fn ark_bn_fq_from_le_bytes(bytes: &[u8]) -> (r: Bn254Fq)
    ensures
        r@ == le_value(bytes@) % bn254_fq_modulus(),
{
    let l = ark_bn254::Fq::from_le_bytes_mod_order(bytes).into_bigint().0;
    Bn254Fq { l0: l[0], l1: l[1], l2: l[2], l3: l[3] }
}

/// `BigInteger::to_bytes_le` of `ark_bn254::Fq::into_bigint`: claims the 32
/// little-endian bytes of the element's value.
#[verifier::external_body]
fn ark_bn_fq_to_bytes(a: &Bn254Fq) -> (r: Vec<u8>)
    ensures
        r@.len() == 32,
        le_value(r@) == a@,
{
    let x = ark_bn254::Fq::new(ark_ff::BigInt::new([a.l0, a.l1, a.l2, a.l3]));
    ark_ff::BigInteger::to_bytes_le(&x.into_bigint())
}

/// The BN254 base-field element whose value is the SHA-256 digest of `data`
/// read as a little-endian integer, reduced modulo the field order.
pub fn bytes_to_fq(data: &[u8]) -> (r: Bn254Fq)
    ensures
        r@ == le_value(sha256_spec(data@)) % bn254_fq_modulus(),
{
    let hash = sha256(data);
    Bn254Fq::from_le_bytes_mod_order(hash.as_slice())
}

/// The BN254 base-field element with value `v`.
pub fn u64_to_fq(v: u64) -> (r: Bn254Fq)
    ensures
        r@ == v,
{
    Bn254Fq::from_u64(v)
}

/// The BN254 base-field element with value `v`, built from its two 64-bit
/// halves as `lo + hi * 2^64`.
pub fn u128_to_fq(v: u128) -> (r: Bn254Fq)
    ensures
        r@ == v,
{
    let lo = v as u64;
    let hi = (v >> 64) as u64;
    let two64 = Bn254Fq::from_u64(u64::MAX).plus(&Bn254Fq::from_u64(1));
    let r = Bn254Fq::from_u64(lo).plus(&Bn254Fq::from_u64(hi).times(&two64));
    proof {
        reveal(bn254_fq_add);
        reveal(bn254_fq_mul);
        assert(lo + hi * 0x1_0000_0000_0000_0000 == v) by (bit_vector)
            requires
                lo == v as u64,
                hi == (v >> 64) as u64,
        ;
        assert(two64@ == 0x1_0000_0000_0000_0000);
        assert(hi * 0x1_0000_0000_0000_0000 < bn254_fq_modulus());
    }
    r
}

/// The 32 little-endian bytes of the value of `f`.
pub fn fq_to_bytes(f: &Bn254Fq) -> (r: Vec<u8>)
    ensures
        r@.len() == 32,
        le_value(r@) == f@,
{
    f.to_bytes_le()
}

} // verus!
