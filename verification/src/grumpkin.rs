//! Affine points of the Grumpkin curve `y^2 = x^3 - 17` over `Fq`, and the
//! group operations on them that arkworks carries out.

use vstd::prelude::*;
use vstd::multiset::Multiset;
use ark_ec::{AffineRepr, CurveGroup};
use ark_ff::{BigInt, PrimeField};
use ark_grumpkin::{Affine as ArkAffine, Fq as ArkFq};

use crate::field::{Fq, fq_modulus, fq_add, fq_mul, fq_neg, limbs_value};

verus! {

/// The curve coefficient `b = -17` of Grumpkin, as a field value.
pub open spec fn curve_b() -> nat {
    (fq_modulus() - 17) as nat
}

/// `x^3 + b`, computed as `(x * x) * x + b` in the field.
pub open spec fn curve_rhs(x: nat) -> nat {
    fq_add(fq_mul(fq_mul(x, x), x), curve_b())
}

/// `(x, y)` satisfies the curve equation.
pub open spec fn on_curve(x: nat, y: nat) -> bool {
    fq_mul(y, y) == curve_rhs(x)
}

/// The affine coordinates and infinity flag of the point at infinity.
pub open spec fn identity_view() -> (nat, nat, bool) {
    (0nat, 0nat, true)
}

/// The group element that a triple stands for once the infinity flag is
/// read as the point at infinity, whatever the coordinates.
pub open spec fn effective(p: (nat, nat, bool)) -> (nat, nat, bool) {
    if p.2 {
        identity_view()
    } else {
        p
    }
}

/// A triple that stands for a point of the curve group: either the point at
/// infinity with zero coordinates, or coordinates on the curve.
pub open spec fn point_valid(p: (nat, nat, bool)) -> bool {
    if p.2 {
        p.0 == 0 && p.1 == 0
    } else {
        on_curve(p.0, p.1)
    }
}

/// The normal affine form of a group element: coordinates reduced modulo the
/// field order, and zero coordinates at infinity.
pub open spec fn normal_form(p: (nat, nat, bool)) -> (nat, nat, bool) {
    if p.2 {
        identity_view()
    } else {
        (p.0 % fq_modulus(), p.1 % fq_modulus(), false)
    }
}

/// A point of the group in normal affine form, as every point that the group
/// operations return is.
pub open spec fn point_normal(p: (nat, nat, bool)) -> bool {
    point_valid(p) && normal_form(p) == p
}

/// Every point of the multiset is a valid group element.
pub open spec fn all_valid(m: Multiset<(nat, nat, bool)>) -> bool {
    forall|p: (nat, nat, bool)| #[trigger] m.count(p) > 0 ==> point_valid(p)
}

/// The sum, in the Grumpkin group, of a finite multiset of two or more points
/// (with the coordinates of each read modulo the field order), in normal
/// affine form.
pub uninterp spec fn grumpkin_sum(points: Multiset<(nat, nat, bool)>) -> (nat, nat, bool);

/// What arkworks' affine addition on Grumpkin returns for two triples of
/// coordinates below the field order and an infinity flag, whether or not
/// they are points of the curve.
pub uninterp spec fn grumpkin_affine_add(a: (nat, nat, bool), b: (nat, nat, bool)) -> (nat, nat, bool);

/// What arkworks' affine subtraction on Grumpkin returns for two triples of
/// coordinates below the field order and an infinity flag, whether or not
/// they are points of the curve.
pub uninterp spec fn grumpkin_affine_sub(a: (nat, nat, bool), b: (nat, nat, bool)) -> (nat, nat, bool);

/// The sum, in the Grumpkin group, of a finite multiset of points, in normal
/// affine form: the identity for no points, the normal form of the point for
/// one point, and `grumpkin_sum` for more.
pub open spec fn group_sum(points: Multiset<(nat, nat, bool)>) -> (nat, nat, bool) {
    if points.len() == 0 {
        identity_view()
    } else if points.len() == 1 {
        normal_form(points.choose())
    } else {
        grumpkin_sum(points)
    }
}

/// `r` is a group element and the sum of `a` and `b`: joined to any multiset of
/// group elements summing to `a`, a multiset summing to `b`, or `b` itself,
/// sums to `r`.
pub open spec fn sum_of_two(a: (nat, nat, bool), b: (nat, nat, bool), r: (nat, nat, bool)) -> bool {
    &&& point_valid(r)
    &&& forall|m: Multiset<(nat, nat, bool)>, n: Multiset<(nat, nat, bool)>|
        all_valid(m) && all_valid(n) && group_sum(m) == effective(a) && group_sum(n)
            == effective(b) ==> #[trigger] group_sum(m.add(n)) == r
    &&& forall|m: Multiset<(nat, nat, bool)>|
        all_valid(m) && group_sum(m) == effective(a) ==> #[trigger] group_sum(
            m.insert(effective(b)),
        ) == r
}

/// `r` is a group element and `a - b`: joined to any multiset of group elements
/// summing to `b`, it gives a multiset summing to `a`.
pub open spec fn difference_of_two(a: (nat, nat, bool), b: (nat, nat, bool), r: (nat, nat, bool)) -> bool {
    &&& point_valid(r)
    &&& forall|n: Multiset<(nat, nat, bool)>|
        all_valid(n) && group_sum(n) == effective(b) ==> #[trigger] group_sum(n.insert(r))
            == effective(a)
}

/// An affine point of Grumpkin: coordinates and an infinity flag.
#[derive(Clone, Copy, Debug, PartialEq, Eq, Structural)]
pub struct GPoint {
    pub x: Fq,
    pub y: Fq,
    pub infinity: bool,
}

impl View for GPoint {
    type V = (nat, nat, bool);

    open spec fn view(&self) -> (nat, nat, bool) {
        (self.x@, self.y@, self.infinity)
    }
}

/// The coefficient `b = -17` of the curve equation.
pub fn curve_coeff_b() -> (r: Fq)
    ensures
        r@ == curve_b(),
{
    let r = Fq::from_i64(-17);
    proof {
        reveal(fq_neg);
    }
    r
}

impl GPoint {
    /// Two points are equal exactly when their views are.
    pub proof fn lemma_view_eq(a: GPoint, b: GPoint)
        ensures
            (a@ == b@) <==> (a == b),
    {
        Fq::lemma_view_eq(a.x, b.x);
        Fq::lemma_view_eq(a.y, b.y);
    }

    /// The point with coordinates `(x, y)`, whether or not it is on the curve.
    pub fn new_unchecked(x: Fq, y: Fq) -> (r: GPoint)
        ensures
            r.x == x,
            r.y == y,
            !r.infinity,
    {
        GPoint { x, y, infinity: false }
    }

    /// The point at infinity, the identity of the group.
    pub fn identity() -> (r: GPoint)
        ensures
            r@ == identity_view(),
            r@ == group_sum(Multiset::empty()),
    {
        let (x, y, inf) = ark_grumpkin_identity();
        GPoint { x: Fq::from_canonical_limbs(x), y: Fq::from_canonical_limbs(y), infinity: inf }
    }

    /// The point at infinity, or a point whose coordinates satisfy the
    /// curve equation.
    pub fn is_on_curve(&self) -> (r: bool)
        ensures
            r == (self.infinity || on_curve(self.x@, self.y@)),
    {
        if !self.infinity {
            let x3b = self.x.square().times(&self.x).plus(&curve_coeff_b());
            let y2 = self.y.square();
            proof {
                Fq::lemma_view_eq(y2, x3b);
            }
            y2 == x3b
        } else {
            true
        }
    }

    /// The coordinates as limbs, with the infinity flag.
    fn limbs(&self) -> (r: LimbPoint)
        ensures
            limb_point(r.0, r.1, r.2) == self@,
    {
        (self.x.limbs(), self.y.limbs(), self.infinity)
    }

    /// Whether this is the point at infinity.
    pub fn is_zero(&self) -> (r: bool)
        ensures
            r == self.infinity,
    {
        self.infinity
    }

    /// The group sum `self + other`, in normal affine form.
    pub fn add_point(&self, other: &GPoint) -> (r: GPoint)
        ensures
            r@ == grumpkin_affine_add(self@, other@),
            point_valid(effective(self@)) && point_valid(effective(other@)) ==> sum_of_two(
                self@,
                other@,
                r@,
            ) && point_normal(r@),
    {
        proof {
            use_type_invariant(&self.x);
            use_type_invariant(&self.y);
            use_type_invariant(&other.x);
            use_type_invariant(&other.y);
            Fq::lemma_canonical(self.x);
            Fq::lemma_canonical(self.y);
            Fq::lemma_canonical(other.x);
            Fq::lemma_canonical(other.y);
        }
        let (x, y, inf) = ark_grumpkin_add(self.limbs(), other.limbs());
        proof {
            vstd::arithmetic::div_mod::lemma_small_mod(limbs_value(x), fq_modulus());
            vstd::arithmetic::div_mod::lemma_small_mod(limbs_value(y), fq_modulus());
        }
        GPoint { x: Fq::from_canonical_limbs(x), y: Fq::from_canonical_limbs(y), infinity: inf }
    }

    /// The group difference `self - other`, in normal affine form.
    pub fn sub_point(&self, other: &GPoint) -> (r: GPoint)
        ensures
            r@ == grumpkin_affine_sub(self@, other@),
            point_valid(effective(self@)) && point_valid(effective(other@)) ==> difference_of_two(
                self@,
                other@,
                r@,
            ) && point_normal(r@),
    {
        proof {
            use_type_invariant(&self.x);
            use_type_invariant(&self.y);
            use_type_invariant(&other.x);
            use_type_invariant(&other.y);
            Fq::lemma_canonical(self.x);
            Fq::lemma_canonical(self.y);
            Fq::lemma_canonical(other.x);
            Fq::lemma_canonical(other.y);
        }
        let (x, y, inf) = ark_grumpkin_sub(self.limbs(), other.limbs());
        proof {
            vstd::arithmetic::div_mod::lemma_small_mod(limbs_value(x), fq_modulus());
            vstd::arithmetic::div_mod::lemma_small_mod(limbs_value(y), fq_modulus());
        }
        GPoint { x: Fq::from_canonical_limbs(x), y: Fq::from_canonical_limbs(y), infinity: inf }
    }
}

/// The triple that limb arrays for the coordinates and a flag stand for.
pub open spec fn limb_point(x: [u64; 4], y: [u64; 4], inf: bool) -> (nat, nat, bool) {
    (limbs_value(x), limbs_value(y), inf)
}

/// Coordinates held as limbs, with the infinity flag.
type LimbPoint = ([u64; 4], [u64; 4], bool);

/// `ark_ec::short_weierstrass::Affine::identity` on Grumpkin: claims zero
/// coordinates with the infinity flag.
#[verifier::external_body]
fn ark_grumpkin_identity() -> (r: LimbPoint)
    ensures
        limb_point(r.0, r.1, r.2) == identity_view(),
{
    let p = ArkAffine::identity();
    (p.x.into_bigint().0, p.y.into_bigint().0, p.infinity)
}

/// `(a.into_group() + b.into_group()).into_affine()` on Grumpkin, with the
/// points given and returned as canonical limbs. The coordinates that come
/// back are canonical, and the result is named `grumpkin_affine_add` of the
/// two inputs, whatever they are. For points of the group it claims a point of the group
/// that is their sum: the two-point multiset `{a, b}` sums to it, and joined
/// to any multiset summing to `a`, a multiset summing to `b` (or `b` itself)
/// sums to it. Of other inputs nothing more is claimed.
#[verifier::external_body]
fn ark_grumpkin_add(a: LimbPoint, b: LimbPoint) -> (r: LimbPoint)
    requires
        limbs_value(a.0) < fq_modulus(),
        limbs_value(a.1) < fq_modulus(),
        limbs_value(b.0) < fq_modulus(),
        limbs_value(b.1) < fq_modulus(),
    ensures
        limbs_value(r.0) < fq_modulus(),
        limbs_value(r.1) < fq_modulus(),
        limb_point(r.0, r.1, r.2) == grumpkin_affine_add(
            limb_point(a.0, a.1, a.2),
            limb_point(b.0, b.1, b.2),
        ),
        point_valid(effective(limb_point(a.0, a.1, a.2))) && point_valid(
            effective(limb_point(b.0, b.1, b.2)),
        ) ==> sum_of_two(limb_point(a.0, a.1, a.2), limb_point(b.0, b.1, b.2), limb_point(r.0, r.1, r.2)),
        point_valid(effective(limb_point(a.0, a.1, a.2))) && point_valid(
            effective(limb_point(b.0, b.1, b.2)),
        ) ==> grumpkin_sum(
            Multiset::singleton(effective(limb_point(a.0, a.1, a.2))).insert(
                effective(limb_point(b.0, b.1, b.2)),
            ),
        ) == limb_point(r.0, r.1, r.2),
{
    let pa = ArkAffine { x: ArkFq::new(BigInt(a.0)), y: ArkFq::new(BigInt(a.1)), infinity: a.2 };
    let pb = ArkAffine { x: ArkFq::new(BigInt(b.0)), y: ArkFq::new(BigInt(b.1)), infinity: b.2 };
    let s = (pa.into_group() + pb.into_group()).into_affine();
    (s.x.into_bigint().0, s.y.into_bigint().0, s.infinity)
}

/// `(a.into_group() - b.into_group()).into_affine()` on Grumpkin, with the
/// points given and returned as canonical limbs. The coordinates that come
/// back are canonical, and the result is named `grumpkin_affine_sub` of the
/// two inputs, whatever they are. For points of the group it claims a point of the group
/// that, joined to any multiset summing to `b`, gives a multiset summing to `a`.
/// Of other inputs nothing more is claimed.
#[verifier::external_body]
fn ark_grumpkin_sub(a: LimbPoint, b: LimbPoint) -> (r: LimbPoint)
    requires
        limbs_value(a.0) < fq_modulus(),
        limbs_value(a.1) < fq_modulus(),
        limbs_value(b.0) < fq_modulus(),
        limbs_value(b.1) < fq_modulus(),
    ensures
        limbs_value(r.0) < fq_modulus(),
        limbs_value(r.1) < fq_modulus(),
        limb_point(r.0, r.1, r.2) == grumpkin_affine_sub(
            limb_point(a.0, a.1, a.2),
            limb_point(b.0, b.1, b.2),
        ),
        point_valid(effective(limb_point(a.0, a.1, a.2))) && point_valid(
            effective(limb_point(b.0, b.1, b.2)),
        ) ==> difference_of_two(limb_point(a.0, a.1, a.2), limb_point(b.0, b.1, b.2), limb_point(r.0, r.1, r.2)),
{
    let pa = ArkAffine { x: ArkFq::new(BigInt(a.0)), y: ArkFq::new(BigInt(a.1)), infinity: a.2 };
    let pb = ArkAffine { x: ArkFq::new(BigInt(b.0)), y: ArkFq::new(BigInt(b.1)), infinity: b.2 };
    let s = (pa.into_group() - pb.into_group()).into_affine();
    (s.x.into_bigint().0, s.y.into_bigint().0, s.infinity)
}

} // verus!
