//! The multiset hash: each message is mapped to a point of Grumpkin and the
//! digest of a multiset is the sum of the points of its elements.

use vstd::prelude::*;
use vstd::multiset::Multiset;
use crate::error::AtlasError;
use crate::field::{Fq, fq_modulus, fq_add};
use crate::grumpkin::{
    GPoint, effective, point_valid, point_normal, identity_view, normal_form, all_valid, group_sum, sum_of_two,
    grumpkin_affine_add,
};
use crate::digest::MultisetDigest;
use crate::relation::{
    IncrementAndCheck, MapToCurveRelation, MapToCurveWitness, map_spec, map_point, map_failure,
    map_output, verify_spec, lemma_map_point_valid, lemma_map_search_tweak, law_map_injective,
    tweak_x, witness_relation, law_verify_is_relation,
};

verus! {

broadcast use vstd::multiset::group_multiset_axioms, vstd::multiset::group_multiset_properties;

/// The values of a sequence of field elements.
pub open spec fn values(s: Seq<Fq>) -> Seq<nat> {
    s.map_values(|f: Fq| f@)
}

/// Every message maps to a point.
pub open spec fn all_map(vals: Seq<nat>, bound: nat) -> bool {
    forall|i: int| 0 <= i < vals.len() ==> (#[trigger] map_spec(vals[i], bound)) is Some
}

/// The multiset of the points that the messages map to.
pub open spec fn points_multiset(vals: Seq<nat>, bound: nat) -> Multiset<(nat, nat, bool)>
    decreases vals.len(),
{
    if vals.len() == 0 {
        Multiset::empty()
    } else {
        points_multiset(vals.drop_last(), bound).insert(map_point(vals.last(), bound))
    }
}

/// The digest of a multiset of messages: the sum of the points they map to.
pub open spec fn multiset_digest_spec(vals: Seq<nat>, bound: nat) -> (nat, nat, bool) {
    group_sum(points_multiset(vals, bound))
}

/// The multiset of the group elements that the points of a witness stand for.
pub open spec fn element_points(elems: Seq<MultisetElement>) -> Multiset<(nat, nat, bool)>
    decreases elems.len(),
{
    if elems.len() == 0 {
        Multiset::empty()
    } else {
        element_points(elems.drop_last()).insert(effective(elems.last().point@))
    }
}

/// Checking the elements of a witness from index `i` on: each must carry the
/// message at its index and a point and witness that verify for it; the
/// first that does not gives its error.
pub open spec fn check_elements(msgs: Seq<Fq>, elems: Seq<MultisetElement>, bound: u64, i: int) -> Result<
    (),
    AtlasError,
>
    decreases elems.len() - i,
{
    if i < 0 || i >= elems.len() {
        Ok(())
    } else if elems[i].message != msgs[i] {
        Err(AtlasError::InvalidWitness { reason: "witness message != messages[i]" })
    } else {
        match verify_spec(
            elems[i].message@,
            bound as nat,
            elems[i].point@,
            elems[i].witness.tweak as nat,
            elems[i].witness.sqrt_witness@,
            elems[i].witness.x@,
        ) {
            Err(e) => Err(e),
            Ok(_) => check_elements(msgs, elems, bound, i + 1),
        }
    }
}

/// The outcome of checking a digest and witness against a multiset of messages.
pub open spec fn verify_multiset_spec(
    msgs: Seq<Fq>,
    digest: (nat, nat, bool),
    elems: Seq<MultisetElement>,
    bound: u64,
) -> Result<(), AtlasError> {
    if elems.len() != msgs.len() {
        Err(AtlasError::InvalidWitness { reason: "witness length != multiset size" })
    } else {
        match check_elements(msgs, elems, bound, 0) {
            Err(e) => Err(e),
            Ok(_) => if group_sum(element_points(elems)) == digest {
                Ok(())
            } else {
                Err(AtlasError::InvalidWitness { reason: "sum of points != digest" })
            },
        }
    }
}

/// Every element from index `i` on carries the message at its index and a
/// point and witness in the map-to-curve relation with it.
pub open spec fn elements_related(msgs: Seq<Fq>, elems: Seq<MultisetElement>, bound: u64, i: int) -> bool {
    forall|j: int|
        i <= j < elems.len() ==> (#[trigger] elems[j]).message == msgs[j] && witness_relation(
            msgs[j]@,
            bound as nat,
            elems[j].point@,
            elems[j].witness.tweak as nat,
            elems[j].witness.sqrt_witness@,
            elems[j].witness.x@,
        )
}

/// The element checks from index `i` on pass exactly when those elements are
/// related to their messages.
proof fn lemma_check_elements_related(msgs: Seq<Fq>, elems: Seq<MultisetElement>, bound: u64, i: int)
    requires
        0 <= i <= elems.len(),
        elems.len() == msgs.len(),
    ensures
        check_elements(msgs, elems, bound, i) is Ok <==> elements_related(msgs, elems, bound, i),
    decreases elems.len() - i,
{
    if i < elems.len() {
        assert(bound < fq_modulus());
        law_verify_is_relation(
            elems[i].message@,
            bound as nat,
            elems[i].point@,
            elems[i].witness.tweak as nat,
            elems[i].witness.sqrt_witness@,
            elems[i].witness.x@,
        );
        lemma_check_elements_related(msgs, elems, bound, i + 1);
        if elements_related(msgs, elems, bound, i) {
            assert(elems[i].message == msgs[i]);
        }
    }
}

/// A multiset witness verifies exactly when it has one element per message,
/// each element carries its message and a point and witness in the
/// map-to-curve relation with it (its x-coordinate is `tweak + m * T`), and
/// the points sum to the digest.
pub proof fn law_verify_multiset_checks_each(
    msgs: Seq<Fq>,
    digest: (nat, nat, bool),
    elems: Seq<MultisetElement>,
    bound: u64,
)
    ensures
        verify_multiset_spec(msgs, digest, elems, bound) is Ok <==> {
            &&& elems.len() == msgs.len()
            &&& elements_related(msgs, elems, bound, 0)
            &&& group_sum(element_points(elems)) == digest
        },
{
    if elems.len() == msgs.len() {
        lemma_check_elements_related(msgs, elems, bound, 0);
    }
}

/// One element of a multiset witness: the message, its point and the
/// witness of the map-to-curve relation.
#[derive(Debug, Clone, Copy)]
pub struct MultisetElement {
    pub message: Fq,
    pub point: GPoint,
    pub witness: MapToCurveWitness,
}

/// The witness of a multiset digest: one element per message, in order.
#[derive(Debug, Clone)]
pub struct MultisetWitness {
    pub elements: Vec<MultisetElement>,
}

impl Default for MultisetWitness {
    fn default() -> (r: Self)
        ensures
            r.elements@.len() == 0,
    {
        Self { elements: Vec::new() }
    }
}

/// The multiset hash over the increment-and-check relation.
pub struct MultisetHash {
    mapper: IncrementAndCheck,
}

/// Adding one point to a multiset of points of the group keeps it so.
proof fn lemma_all_valid_insert(m: Multiset<(nat, nat, bool)>, p: (nat, nat, bool))
    requires
        all_valid(m),
        point_valid(p),
    ensures
        all_valid(m.insert(p)),
{
}

/// The points of the first `i + 1` messages are those of the first `i` and
/// the point of message `i`.
proof fn lemma_points_take_step(vals: Seq<nat>, bound: nat, i: int)
    requires
        0 <= i < vals.len(),
    ensures
        points_multiset(vals.take(i + 1), bound) == points_multiset(vals.take(i), bound).insert(
            map_point(vals[i], bound),
        ),
{
    assert(vals.take(i + 1).drop_last() =~= vals.take(i));
}

/// The witness elements of the first `i + 1` elements are those of the
/// first `i` and that of element `i`.
proof fn lemma_element_points_take_step(elems: Seq<MultisetElement>, i: int)
    requires
        0 <= i < elems.len(),
    ensures
        element_points(elems.take(i + 1)) == element_points(elems.take(i)).insert(
            effective(elems[i].point@),
        ),
{
    assert(elems.take(i + 1).drop_last() =~= elems.take(i));
}

/// The points of messages that all map are points of the group.
pub proof fn lemma_points_multiset_valid(vals: Seq<nat>, bound: nat)
    requires
        all_map(vals, bound),
    ensures
        all_valid(points_multiset(vals, bound)),
    decreases vals.len(),
{
    if vals.len() > 0 {
        assert(map_spec(vals[vals.len() - 1], bound) is Some);
        assert forall|i: int| 0 <= i < vals.drop_last().len() implies (#[trigger] map_spec(
            vals.drop_last()[i],
            bound,
        )) is Some by {
            assert(vals.drop_last()[i] == vals[i]);
        }
        lemma_points_multiset_valid(vals.drop_last(), bound);
        lemma_map_point_valid(vals.last(), bound);
        lemma_all_valid_insert(points_multiset(vals.drop_last(), bound), map_point(vals.last(), bound));
    }
}

/// Elements that all carry their message and verify pass the element check.
proof fn lemma_check_elements_ok(msgs: Seq<Fq>, elems: Seq<MultisetElement>, bound: u64, i: int)
    requires
        0 <= i,
        elems.len() == msgs.len(),
        forall|j: int|
            i <= j < elems.len() ==> (#[trigger] elems[j]).message == msgs[j] && verify_spec(
                elems[j].message@,
                bound as nat,
                elems[j].point@,
                elems[j].witness.tweak as nat,
                elems[j].witness.sqrt_witness@,
                elems[j].witness.x@,
            ) == Ok::<(), AtlasError>(()),
    ensures
        check_elements(msgs, elems, bound, i) == Ok::<(), AtlasError>(()),
    decreases elems.len() - i,
{
    if i < elems.len() {
        lemma_check_elements_ok(msgs, elems, bound, i + 1);
    }
}

/// Taking out the message at index `j` takes its point out of the multiset.
proof fn lemma_points_multiset_remove(vals: Seq<nat>, bound: nat, j: int)
    requires
        0 <= j < vals.len(),
    ensures
        points_multiset(vals, bound) == points_multiset(vals.remove(j), bound).insert(
            map_point(vals[j], bound),
        ),
    decreases vals.len(),
{
    if j == vals.len() - 1 {
        assert(vals.remove(j) =~= vals.drop_last());
    } else {
        let d = vals.drop_last();
        lemma_points_multiset_remove(d, bound, j);
        assert(vals.remove(j).drop_last() =~= d.remove(j));
        assert(vals.remove(j).last() == vals.last());
        assert(d[j] == vals[j]);
        assert(points_multiset(vals, bound) =~= points_multiset(vals.remove(j), bound).insert(
            map_point(vals[j], bound),
        ));
    }
}

/// The points of a concatenation are the points of both parts.
proof fn lemma_points_multiset_concat(s1: Seq<nat>, s2: Seq<nat>, bound: nat)
    ensures
        points_multiset(s1 + s2, bound) == points_multiset(s1, bound).add(
            points_multiset(s2, bound),
        ),
    decreases s2.len(),
{
    if s2.len() == 0 {
        assert(s1 + s2 =~= s1);
        assert(points_multiset(s1, bound).add(Multiset::empty()) =~= points_multiset(s1, bound));
    } else {
        lemma_points_multiset_concat(s1, s2.drop_last(), bound);
        assert((s1 + s2).drop_last() =~= s1 + s2.drop_last());
        assert((s1 + s2).last() == s2.last());
        assert(points_multiset(s1 + s2, bound) =~= points_multiset(s1, bound).add(
            points_multiset(s2, bound),
        ));
    }
}

/// Order independence: two sequences of messages that are rearrangements of
/// one another map to the same multiset of points, so they have the same
/// digest, and either all of their messages map or not all do.
pub proof fn law_order_independence(s1: Seq<nat>, s2: Seq<nat>, bound: nat)
    requires
        s1.to_multiset() == s2.to_multiset(),
    ensures
        points_multiset(s1, bound) == points_multiset(s2, bound),
        multiset_digest_spec(s1, bound) == multiset_digest_spec(s2, bound),
        all_map(s1, bound) == all_map(s2, bound),
    decreases s1.len(),
{
    broadcast use vstd::seq_lib::group_to_multiset_ensures;

    if s1.len() == 0 {
        assert(s1.to_multiset().len() == 0);
        assert(s2.to_multiset().len() == s2.len());
        assert(s2.len() == 0);
        assert(s1 =~= s2);
    } else {
        let a = s1.last();
        assert(s1.to_multiset().count(a) > 0);
        assert(s2.contains(a));
        let j = choose|j: int| 0 <= j < s2.len() && s2[j] == a;
        assert(s1.remove(s1.len() - 1) =~= s1.drop_last());
        assert(s1.drop_last().to_multiset() == s1.to_multiset().remove(a));
        assert(s2.remove(j).to_multiset() == s2.to_multiset().remove(a));
        law_order_independence(s1.drop_last(), s2.remove(j), bound);
        lemma_points_multiset_remove(s2, bound, j);
        s2.remove_ensures(j);
        if all_map(s1, bound) {
            assert forall|i: int| 0 <= i < s2.len() implies (#[trigger] map_spec(s2[i], bound)) is Some by {
                if i == j {
                    assert(map_spec(s1[s1.len() - 1], bound) is Some);
                } else if i < j {
                    assert(s2.remove(j)[i] == s2[i]);
                    assert(map_spec(s2.remove(j)[i], bound) is Some);
                } else {
                    assert(s2.remove(j)[i - 1] == s2[i]);
                    assert(map_spec(s2.remove(j)[i - 1], bound) is Some);
                }
            }
        }
        if all_map(s2, bound) {
            assert forall|i: int| 0 <= i < s1.len() implies (#[trigger] map_spec(s1[i], bound)) is Some by {
                if i == s1.len() - 1 {
                    assert(map_spec(s2[j], bound) is Some);
                } else {
                    assert(s1.drop_last()[i] == s1[i]);
                    assert forall|k: int| 0 <= k < s2.remove(j).len() implies (#[trigger] map_spec(
                        s2.remove(j)[k],
                        bound,
                    )) is Some by {
                        if k < j {
                            assert(map_spec(s2[k], bound) is Some);
                        } else {
                            assert(map_spec(s2[k + 1], bound) is Some);
                        }
                    }
                    assert(map_spec(s1.drop_last()[i], bound) is Some);
                }
            }
        }
    }
}

/// Incrementality: the combination of the digests of two sequences of
/// messages (that all map) is the digest of their concatenation.
pub proof fn law_incrementality(s1: Seq<nat>, s2: Seq<nat>, bound: nat, combined: (nat, nat, bool))
    requires
        all_map(s1, bound),
        all_map(s2, bound),
        point_valid(multiset_digest_spec(s1, bound)),
        point_valid(multiset_digest_spec(s2, bound)),
        sum_of_two(multiset_digest_spec(s1, bound), multiset_digest_spec(s2, bound), combined),
    ensures
        combined == multiset_digest_spec(s1 + s2, bound),
{
    lemma_points_multiset_valid(s1, bound);
    lemma_points_multiset_valid(s2, bound);
    lemma_points_multiset_concat(s1, s2, bound);
    let m = points_multiset(s1, bound);
    let n = points_multiset(s2, bound);
    assert(group_sum(m.add(n)) == combined);
}

/// The digest of one message is the normal form of its point.
pub proof fn lemma_single_digest(m: nat, bound: nat)
    ensures
        multiset_digest_spec(seq![m], bound) == normal_form(map_point(m, bound)),
{
    broadcast use vstd::multiset::group_multiset_axioms;

    assert(seq![m].drop_last() =~= Seq::<nat>::empty());
    let ms = points_multiset(seq![m], bound);
    assert(points_multiset(Seq::<nat>::empty(), bound) == Multiset::<(nat, nat, bool)>::empty());
    assert(seq![m].last() == m);
    assert(ms == points_multiset(Seq::<nat>::empty(), bound).insert(map_point(m, bound)));
    assert(ms =~= Multiset::singleton(map_point(m, bound)));
    assert(ms.len() == 1);
    assert(ms.count(ms.choose()) > 0);
}

/// Distinct small messages have distinct one-element digests: on messages `m`
/// with `(m + 1) * T` at most the field order, `{m1}` and `{m2}` hash to
/// different digests unless `m1 == m2`.
pub proof fn law_single_message_digests_differ(m1: nat, m2: nat, bound: nat)
    requires
        map_spec(m1, bound) is Some,
        map_spec(m2, bound) is Some,
        (m1 + 1) * bound <= fq_modulus(),
        (m2 + 1) * bound <= fq_modulus(),
        m1 != m2,
    ensures
        multiset_digest_spec(seq![m1], bound) != multiset_digest_spec(seq![m2], bound),
{
    lemma_single_digest(m1, bound);
    lemma_single_digest(m2, bound);
    lemma_map_search_tweak(m1, bound, 0);
    lemma_map_search_tweak(m2, bound, 0);
    let s1 = map_spec(m1, bound).unwrap();
    let s2 = map_spec(m2, bound).unwrap();
    assert(tweak_x(m1, s1.0, bound) < fq_modulus()) by {
        reveal(fq_add);
    }
    assert(tweak_x(m2, s2.0, bound) < fq_modulus()) by {
        reveal(fq_add);
    }
    vstd::arithmetic::div_mod::lemma_small_mod(map_point(m1, bound).0, fq_modulus());
    vstd::arithmetic::div_mod::lemma_small_mod(map_point(m2, bound).0, fq_modulus());
    if map_point(m1, bound).0 == map_point(m2, bound).0 {
        law_map_injective(m1, m2, bound);
    }
}

/// The digest of one message that maps is never the empty digest.
pub proof fn law_single_digest_not_empty(m: nat, bound: nat)
    requires
        map_spec(m, bound) is Some,
    ensures
        multiset_digest_spec(seq![m], bound) != identity_view(),
{
    lemma_single_digest(m, bound);
}

/// A digest and witness of one message that verify against it do not verify
/// against the empty digest: the check of the sum fails.
pub proof fn law_single_witness_rejects_empty(
    msgs: Seq<Fq>,
    digest: (nat, nat, bool),
    elems: Seq<MultisetElement>,
    bound: u64,
)
    requires
        msgs.len() == 1,
        all_map(values(msgs), bound as nat),
        digest == multiset_digest_spec(values(msgs), bound as nat),
        verify_multiset_spec(msgs, digest, elems, bound) is Ok,
    ensures
        verify_multiset_spec(msgs, identity_view(), elems, bound) == Err::<(), AtlasError>(
            AtlasError::InvalidWitness { reason: "sum of points != digest" },
        ),
{
    assert(values(msgs) =~= seq![msgs[0]@]);
    assert(map_spec(values(msgs)[0], bound as nat) is Some);
    law_single_digest_not_empty(msgs[0]@, bound as nat);
}

/// Mapping every element of two rearrangements of one another gives two
/// rearrangements of one another.
proof fn lemma_map_values_to_multiset<A, B>(s1: Seq<A>, s2: Seq<A>, f: spec_fn(A) -> B)
    requires
        s1.to_multiset() == s2.to_multiset(),
    ensures
        s1.map_values(f).to_multiset() == s2.map_values(f).to_multiset(),
    decreases s1.len(),
{
    broadcast use vstd::seq_lib::group_to_multiset_ensures;

    if s1.len() == 0 {
        assert(s1.to_multiset().len() == 0);
        assert(s2.to_multiset().len() == s2.len());
        assert(s1.map_values(f) =~= s2.map_values(f));
    } else {
        let a = s1.last();
        assert(s1.to_multiset().count(a) > 0);
        assert(s2.contains(a));
        let j = choose|j: int| 0 <= j < s2.len() && s2[j] == a;
        assert(s1.remove(s1.len() - 1) =~= s1.drop_last());
        assert(s1.drop_last().to_multiset() == s1.to_multiset().remove(a));
        assert(s2.remove(j).to_multiset() == s2.to_multiset().remove(a));
        lemma_map_values_to_multiset(s1.drop_last(), s2.remove(j), f);
        let t1 = s1.map_values(f);
        let t2 = s2.map_values(f);
        assert(s1.drop_last().map_values(f) =~= t1.drop_last());
        assert(t1.drop_last().push(t1.last()) =~= t1);
        assert(t1.to_multiset() == t1.drop_last().to_multiset().insert(f(a)));
        assert(s2.remove(j).map_values(f) =~= t2.remove(j));
        assert(t2.remove(j).to_multiset() == t2.to_multiset().remove(f(a)));
        assert(t2.to_multiset().count(f(a)) > 0);
        assert(t2.to_multiset() =~= t2.to_multiset().remove(f(a)).insert(f(a)));
    }
}

/// Order independence for sequences of field elements: two rearrangements of
/// one another either both map or both do not, and have the same digest; two
/// digests of them are equal.
pub proof fn law_hash_order_independence(
    ms1: Seq<Fq>,
    ms2: Seq<Fq>,
    bound: nat,
    d1: MultisetDigest,
    d2: MultisetDigest,
)
    requires
        ms1.to_multiset() == ms2.to_multiset(),
        d1.0@ == multiset_digest_spec(values(ms1), bound),
        d2.0@ == multiset_digest_spec(values(ms2), bound),
    ensures
        all_map(values(ms1), bound) == all_map(values(ms2), bound),
        multiset_digest_spec(values(ms1), bound) == multiset_digest_spec(values(ms2), bound),
        d1 == d2,
{
    lemma_map_values_to_multiset(ms1, ms2, |f: Fq| f@);
    law_order_independence(values(ms1), values(ms2), bound);
    GPoint::lemma_view_eq(d1.0, d2.0);
}

impl MultisetHash {
    /// The tweak bound of the relation the hash maps messages with.
    pub closed spec fn tweak_bound(&self) -> u64 {
        self.mapper.tweak_bound
    }

    /// The multiset hash whose relation has tweak bound `tweak_bound`.
    pub fn new(tweak_bound: u64) -> (r: Self)
        ensures
            r.tweak_bound() == tweak_bound,
    {
        Self { mapper: IncrementAndCheck::new(tweak_bound) }
    }

    /// The digest of the one-element multiset `{message}` (the point the
    /// message maps to) and the witness element; fails when the message does
    /// not map.
    pub fn hash_one(&self, message: Fq) -> (r: Result<(MultisetDigest, MultisetElement), AtlasError>)
        ensures
            match r {
                Ok((d, e)) => {
                    &&& map_output(message@, self.tweak_bound(), e.point, e.witness)
                    &&& e.message == message
                    &&& d.0 == e.point
                    &&& d.0@ == map_point(message@, self.tweak_bound() as nat)
                    &&& point_valid(d.0@)
                },
                Err(err) => map_spec(message@, self.tweak_bound() as nat) is None && err
                    == map_failure(self.tweak_bound()),
            },
    {
        let (pt, w) = self.mapper.map(message)?;
        proof {
            lemma_map_point_valid(message@, self.tweak_bound() as nat);
        }
        Ok((MultisetDigest(pt), MultisetElement { message, point: pt, witness: w }))
    }

    /// The digest `current` with `message` added, and the witness element;
    /// fails when the message does not map.
    pub fn update(&self, current: &MultisetDigest, message: Fq) -> (r: Result<
        (MultisetDigest, MultisetElement),
        AtlasError,
    >)
        ensures
            match r {
                Ok((d, e)) => {
                    &&& map_output(message@, self.tweak_bound(), e.point, e.witness)
                    &&& e.message == message
                    &&& d.0@ == grumpkin_affine_add(current.0@, e.point@)
                    &&& point_valid(effective(current.0@)) ==> sum_of_two(
                        current.0@,
                        map_point(message@, self.tweak_bound() as nat),
                        d.0@,
                    ) && point_normal(d.0@)
                },
                Err(err) => map_spec(message@, self.tweak_bound() as nat) is None && err
                    == map_failure(self.tweak_bound()),
            },
    {
        let (single, elem) = self.hash_one(message)?;
        Ok((current.combine(&single), elem))
    }

    /// The digest of the multiset of `messages` (the sum of the points they
    /// map to, whatever their order) and its witness; fails when a message
    /// does not map. The digest and witness always verify.
    pub fn hash_multiset(&self, messages: &[Fq]) -> (r: Result<(MultisetDigest, MultisetWitness), AtlasError>)
        ensures
            match r {
                Ok((d, w)) => {
                    &&& all_map(values(messages@), self.tweak_bound() as nat)
                    &&& messages@.len() == 0 ==> d.0@ == identity_view()
                    &&& d.0@ == multiset_digest_spec(values(messages@), self.tweak_bound() as nat)
                    &&& point_normal(d.0@)
                    &&& w.elements@.len() == messages@.len()
                    &&& forall|i: int|
                        0 <= i < messages@.len() ==> (#[trigger] w.elements@[i]).message
                            == messages@[i] && map_output(
                            messages@[i]@,
                            self.tweak_bound(),
                            w.elements@[i].point,
                            w.elements@[i].witness,
                        )
                    &&& verify_multiset_spec(messages@, d.0@, w.elements@, self.tweak_bound())
                        == Ok::<(), AtlasError>(())
                },
                Err(e) => !all_map(values(messages@), self.tweak_bound() as nat) && e
                    == map_failure(self.tweak_bound()),
            },
    {
        let ghost bound = self.tweak_bound() as nat;
        let ghost vals = values(messages@);
        let mut digest = MultisetDigest::empty();
        let mut witness = MultisetWitness::default();
        let mut i: usize = 0;
        assert(vals.take(0) =~= Seq::<nat>::empty());
        assert(witness.elements@ =~= Seq::<MultisetElement>::empty());
        while i < messages.len()
            invariant
                i <= messages@.len(),
                bound == self.tweak_bound() as nat,
                vals == values(messages@),
                vals.len() == messages@.len(),
                witness.elements@.len() == i,
                forall|j: int|
                    0 <= j < i ==> (#[trigger] witness.elements@[j]).message == messages@[j]
                        && map_output(
                        messages@[j]@,
                        self.tweak_bound(),
                        witness.elements@[j].point,
                        witness.elements@[j].witness,
                    ),
                all_map(vals.take(i as int), bound),
                all_valid(points_multiset(vals.take(i as int), bound)),
                digest.0@ == group_sum(points_multiset(vals.take(i as int), bound)),
                point_normal(digest.0@),
                element_points(witness.elements@) == points_multiset(vals.take(i as int), bound),
            decreases messages@.len() - i,
        {
            let m = messages[i];
            let res = self.update(&digest, m);
            match res {
                Ok((d, elem)) => {
                    proof {
                        assert(vals[i as int] == m@);
                        lemma_points_take_step(vals, bound, i as int);
                        lemma_map_point_valid(m@, bound);
                        lemma_all_valid_insert(
                            points_multiset(vals.take(i as int), bound),
                            map_point(m@, bound),
                        );
                        assert forall|j: int| 0 <= j < i + 1 implies (#[trigger] map_spec(
                            vals.take(i + 1)[j],
                            bound,
                        )) is Some by {
                            if j < i {
                                assert(vals.take(i + 1)[j] == vals.take(i as int)[j]);
                            }
                        }
                    }
                    let ghost old_elems = witness.elements@;
                    digest = d;
                    witness.elements.push(elem);
                    proof {
                        assert(witness.elements@.drop_last() =~= old_elems);
                    }
                },
                Err(e) => {
                    proof {
                        assert(map_spec(vals[i as int], bound) is None);
                    }
                    return Err(e);
                },
            }
            i = i + 1;
        }
        proof {
            assert(vals.take(messages@.len() as int) =~= vals);
            lemma_check_elements_ok(messages@, witness.elements@, self.tweak_bound(), 0);
        }
        Ok((digest, witness))
    }

    /// Checks a digest and witness against `messages`: the witness must have
    /// one element per message, each carrying its message and a point that
    /// verifies for it, and the sum of the points must be the digest. The
    /// first check that fails gives its error.
    pub fn verify_multiset(
        &self,
        messages: &[Fq],
        digest: &MultisetDigest,
        witness: &MultisetWitness,
    ) -> (r: Result<(), AtlasError>)
        ensures
            r == verify_multiset_spec(messages@, digest.0@, witness.elements@, self.tweak_bound()),
            r is Ok <==> {
                &&& witness.elements@.len() == messages@.len()
                &&& elements_related(messages@, witness.elements@, self.tweak_bound(), 0)
                &&& group_sum(element_points(witness.elements@)) == digest.0@
            },
    {
        proof {
            law_verify_multiset_checks_each(messages@, digest.0@, witness.elements@, self.tweak_bound());
        }
        if witness.elements.len() != messages.len() {
            return Err(AtlasError::InvalidWitness { reason: "witness length != multiset size" });
        }
        let ghost msgs = messages@;
        let ghost elems = witness.elements@;
        let ghost bound = self.tweak_bound();
        let mut acc = GPoint::identity();
        let mut i: usize = 0;
        assert(elems.take(0) =~= Seq::<MultisetElement>::empty());
        while i < witness.elements.len()
            invariant
                i <= elems.len(),
                elems == witness.elements@,
                msgs == messages@,
                elems.len() == msgs.len(),
                bound == self.tweak_bound(),
                check_elements(msgs, elems, bound, 0) == check_elements(msgs, elems, bound, i as int),
                all_valid(element_points(elems.take(i as int))),
                acc@ == group_sum(element_points(elems.take(i as int))),
                point_valid(acc@),
            decreases elems.len() - i,
        {
            let elem = &witness.elements[i];
            if elem.message != messages[i] {
                return Err(AtlasError::InvalidWitness { reason: "witness message != messages[i]" });
            }
            self.mapper.verify(elem.message, elem.point, &elem.witness)?;
            proof {
                lemma_element_points_take_step(elems, i as int);
                lemma_all_valid_insert(element_points(elems.take(i as int)), effective(elem.point@));
            }
            acc = acc.add_point(&elem.point);
            i = i + 1;
        }
        proof {
            assert(elems.take(elems.len() as int) =~= elems);
        }
        let computed = MultisetDigest(acc);
        proof {
            GPoint::lemma_view_eq(computed.0, digest.0);
        }
        if computed != *digest {
            return Err(AtlasError::InvalidWitness { reason: "sum of points != digest" });
        }
        Ok(())
    }
}

} // verus!
