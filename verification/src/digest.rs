//! Digests of the multiset hash: points of Grumpkin, combined by the group law.

use vstd::prelude::*;
use vstd::multiset::Multiset;
use crate::grumpkin::{
    GPoint, identity_view, effective, point_valid, group_sum, sum_of_two, difference_of_two,
    normal_form, all_valid, point_normal, grumpkin_affine_add, grumpkin_affine_sub,
};

verus! {

/// The digest of a multiset: the sum of the points its elements map to.
#[derive(Debug, Clone, Copy, PartialEq, Eq, Structural)]
pub struct MultisetDigest(pub GPoint);

impl MultisetDigest {
    /// The digest of the empty multiset: the point at infinity.
    pub fn empty() -> (r: Self)
        ensures
            r.0@ == identity_view(),
            r.0@ == group_sum(Multiset::empty()),
            point_normal(r.0@),
    {
        Self(GPoint::identity())
    }

    /// Whether this is the digest of the empty multiset (the point at infinity).
    pub fn is_empty_digest(&self) -> (r: bool)
        ensures
            r == self.0.infinity,
    {
        self.0.is_zero()
    }

    /// The digest of the union of the two multisets: the sum of the points.
    pub fn combine(&self, other: &Self) -> (r: Self)
        ensures
            r.0@ == grumpkin_affine_add(self.0@, other.0@),
            point_valid(effective(self.0@)) && point_valid(effective(other.0@)) ==> sum_of_two(
                self.0@,
                other.0@,
                r.0@,
            ) && point_normal(r.0@),
    {
        Self(self.0.add_point(&other.0))
    }

    /// The digest with the multiset of `other` taken out: the difference of the points.
    pub fn remove(&self, other: &Self) -> (r: Self)
        ensures
            r.0@ == grumpkin_affine_sub(self.0@, other.0@),
            point_valid(effective(self.0@)) && point_valid(effective(other.0@))
                ==> difference_of_two(self.0@, other.0@, r.0@) && point_normal(r.0@),
    {
        Self(self.0.sub_point(&other.0))
    }
}

/// A point of the group in normal form is the sum of itself alone.
proof fn lemma_singleton_sum(a: (nat, nat, bool))
    requires
        point_normal(a),
    ensures
        all_valid(Multiset::singleton(a)),
        group_sum(Multiset::singleton(a)) == a,
        effective(a) == a,
{
    broadcast use vstd::multiset::group_multiset_axioms;

    assert(Multiset::singleton(a).len() == 1);
    assert(Multiset::singleton(a).count(Multiset::singleton(a).choose()) > 0);
}

/// The empty digest is an identity for `combine`: combining a digest with
/// the empty digest gives the digest back.
pub proof fn law_combine_identity(a: MultisetDigest, r: MultisetDigest)
    requires
        point_normal(a.0@),
        sum_of_two(a.0@, identity_view(), r.0@),
    ensures
        r == a,
{
    broadcast use vstd::multiset::group_multiset_axioms;

    lemma_singleton_sum(a.0@);
    let m = Multiset::singleton(a.0@);
    let n = Multiset::<(nat, nat, bool)>::empty();
    assert(group_sum(m.add(n)) == r.0@);
    assert(m.add(n) =~= m);
    GPoint::lemma_view_eq(a.0, r.0);
}

/// `combine` is commutative on digests: `a` combined with `b` equals `b`
/// combined with `a`.
pub proof fn law_combine_commutative(
    a: MultisetDigest,
    b: MultisetDigest,
    ab: MultisetDigest,
    ba: MultisetDigest,
)
    requires
        point_normal(a.0@),
        point_normal(b.0@),
        sum_of_two(a.0@, b.0@, ab.0@),
        sum_of_two(b.0@, a.0@, ba.0@),
    ensures
        ab == ba,
{
    broadcast use vstd::multiset::group_multiset_axioms;

    lemma_singleton_sum(a.0@);
    lemma_singleton_sum(b.0@);
    let ma = Multiset::singleton(a.0@);
    let mb = Multiset::singleton(b.0@);
    assert(group_sum(ma.add(mb)) == ab.0@);
    assert(group_sum(mb.add(ma)) == ba.0@);
    assert(ma.add(mb) =~= mb.add(ma));
    GPoint::lemma_view_eq(ab.0, ba.0);
}

/// `combine` is associative on digests: `(a + b) + c` equals `a + (b + c)`.
pub proof fn law_combine_associative(
    a: MultisetDigest,
    b: MultisetDigest,
    c: MultisetDigest,
    ab: MultisetDigest,
    bc: MultisetDigest,
    ab_c: MultisetDigest,
    a_bc: MultisetDigest,
)
    requires
        point_normal(a.0@),
        point_normal(b.0@),
        point_normal(c.0@),
        sum_of_two(a.0@, b.0@, ab.0@),
        sum_of_two(b.0@, c.0@, bc.0@),
        sum_of_two(ab.0@, c.0@, ab_c.0@),
        sum_of_two(a.0@, bc.0@, a_bc.0@),
    ensures
        ab_c == a_bc,
{
    broadcast use vstd::multiset::group_multiset_axioms;

    lemma_singleton_sum(a.0@);
    lemma_singleton_sum(b.0@);
    lemma_singleton_sum(c.0@);
    let ma = Multiset::singleton(a.0@);
    let mb = Multiset::singleton(b.0@);
    let mc = Multiset::singleton(c.0@);
    assert(group_sum(ma.add(mb)) == ab.0@);
    assert(group_sum(mb.add(mc)) == bc.0@);
    assert(all_valid(ma.add(mb)));
    assert(all_valid(mb.add(mc)));
    assert(effective(ab.0@) == ab.0@);
    assert(effective(bc.0@) == bc.0@);
    assert(group_sum(ma.add(mb).add(mc)) == ab_c.0@);
    assert(group_sum(ma.add(mb.add(mc))) == a_bc.0@);
    assert(ma.add(mb).add(mc) =~= ma.add(mb.add(mc)));
    GPoint::lemma_view_eq(ab_c.0, a_bc.0);
}

} // verus!
