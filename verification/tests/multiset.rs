use atlas::digest::MultisetDigest;
use atlas::error::AtlasError;
use atlas::field::Fq;
use atlas::hasher::MultisetHash;

fn h() -> MultisetHash {
    MultisetHash::new(256)
}

fn fq(v: u64) -> Fq {
    Fq::from_u64(v)
}

#[test]
fn empty_is_identity() {
    let (d, _) = h().hash_multiset(&[]).unwrap();
    assert!(d.is_empty_digest());
}

#[test]
fn incrementality() {
    let h = h();
    let s1 = [fq(1), fq(2)];
    let s2 = [fq(3), fq(4)];
    let all: Vec<_> = s1.iter().chain(s2.iter()).copied().collect();

    let (d1, _) = h.hash_multiset(&s1).unwrap();
    let (d2, _) = h.hash_multiset(&s2).unwrap();
    let (da, _) = h.hash_multiset(&all).unwrap();

    assert_eq!(d1.combine(&d2), da);
}

#[test]
fn order_independence() {
    let h = h();
    let a = fq(10);
    let b = fq(20);
    let (dab, _) = h.hash_multiset(&[a, b]).unwrap();
    let (dba, _) = h.hash_multiset(&[b, a]).unwrap();
    assert_eq!(dab, dba);
}

#[test]
fn hasher_verify_roundtrip() {
    let h = h();
    let msgs = [fq(1), fq(2), fq(3)];
    let (d, w) = h.hash_multiset(&msgs).unwrap();
    assert!(h.verify_multiset(&msgs, &d, &w).is_ok());
}

#[test]
fn verify_rejects_wrong_digest() {
    let h = h();
    let msgs = [fq(1)];
    let (_, w) = h.hash_multiset(&msgs).unwrap();
    assert!(h.verify_multiset(&msgs, &MultisetDigest::empty(), &w).is_err());
}

#[test]
fn verify_multiset_errors() {
    let h = h();
    let msgs = [fq(1), fq(2)];
    let (d, w) = h.hash_multiset(&msgs).unwrap();
    assert_eq!(
        h.verify_multiset(&msgs[..1], &d, &w),
        Err(AtlasError::InvalidWitness { reason: "witness length != multiset size" })
    );
    assert_eq!(
        h.verify_multiset(&[fq(2), fq(1)], &d, &w),
        Err(AtlasError::InvalidWitness { reason: "witness message != messages[i]" })
    );
    let (_, w1) = h.hash_multiset(&[fq(1)]).unwrap();
    assert_eq!(
        h.verify_multiset(&[fq(1)], &MultisetDigest::empty(), &w1),
        Err(AtlasError::InvalidWitness { reason: "sum of points != digest" })
    );
    let mut bad = w.clone();
    bad.elements[1].witness.tweak += 1;
    assert_eq!(
        h.verify_multiset(&msgs, &d, &bad),
        Err(AtlasError::InvalidWitness { reason: "x != t + m*T" })
    );
}

#[test]
fn hash_one_and_update_agree_with_hash_multiset() {
    let h = h();
    let (one, e) = h.hash_one(fq(5)).unwrap();
    assert_eq!(one.0, e.point);
    assert_eq!(e.message, fq(5));
    let (after, _) = h.update(&MultisetDigest::empty(), fq(5)).unwrap();
    let (whole, _) = h.hash_multiset(&[fq(5)]).unwrap();
    assert_eq!(after, whole);
    assert_eq!(whole, one);
    let (two, _) = h.update(&whole, fq(6)).unwrap();
    let (both, _) = h.hash_multiset(&[fq(6), fq(5)]).unwrap();
    assert_eq!(two, both);
}

#[test]
fn remove_undoes_combine() {
    let h = h();
    let (d1, _) = h.hash_multiset(&[fq(1), fq(2)]).unwrap();
    let (d2, _) = h.hash_multiset(&[fq(3)]).unwrap();
    assert_eq!(d1.combine(&d2).remove(&d2), d1);
    assert!(d1.remove(&d1).is_empty_digest());
}

#[test]
fn different_multisets_different_digests() {
    let h = h();
    let (d12, _) = h.hash_multiset(&[fq(1), fq(2)]).unwrap();
    let (d13, _) = h.hash_multiset(&[fq(1), fq(3)]).unwrap();
    assert_ne!(d12, d13);
}

#[test]
fn hash_multiset_fails_when_a_message_does_not_map() {
    let h = MultisetHash::new(0);
    assert_eq!(
        h.hash_multiset(&[fq(1)]).unwrap_err(),
        AtlasError::MapToCurveFailed { attempts: 0, tweak_bound: 0 }
    );
    assert!(h.hash_multiset(&[]).is_ok());
}

#[test]
fn combine_has_empty_identity() {
    let h = h();
    let (d, _) = h.hash_multiset(&[fq(4), fq(9)]).unwrap();
    assert_eq!(d.combine(&MultisetDigest::empty()), d);
    assert_eq!(MultisetDigest::empty().combine(&d), d);
}

#[test]
fn combine_is_commutative_and_associative() {
    let h = h();
    let (a, _) = h.hash_multiset(&[fq(1)]).unwrap();
    let (b, _) = h.hash_multiset(&[fq(2), fq(3)]).unwrap();
    let (c, _) = h.hash_multiset(&[fq(4)]).unwrap();
    assert_eq!(a.combine(&b), b.combine(&a));
    assert_eq!(a.combine(&b).combine(&c), a.combine(&b.combine(&c)));
    let (all, _) = h.hash_multiset(&[fq(1), fq(2), fq(3), fq(4)]).unwrap();
    assert_eq!(a.combine(&b).combine(&c), all);
}

#[test]
fn single_message_digest_is_its_point_and_not_empty() {
    let h = h();
    let (d, w) = h.hash_multiset(&[fq(7)]).unwrap();
    assert!(!d.is_empty_digest());
    assert_eq!(d.0, w.elements[0].point);
    assert_eq!(d.0.x, Fq::from_u64(1792));
    let (d6, _) = h.hash_multiset(&[fq(6)]).unwrap();
    assert_ne!(d, d6);
}
