use atlas::error::AtlasError;
use atlas::field::Fq;
use atlas::relation::{IncrementAndCheck, MapToCurveRelation};
use atlas::subgroup::{canonical_y, is_in_subgroup, try_make_point};

fn mapper() -> IncrementAndCheck {
    IncrementAndCheck::new(256)
}

#[test]
fn map_succeeds() {
    for i in 0u64..20 {
        assert!(mapper().map(Fq::from_u64(i)).is_ok(), "failed at m={i}");
    }
}

#[test]
fn relation_verify_roundtrip() {
    let m = mapper();
    for i in 0u64..20 {
        let msg = Fq::from_u64(i);
        let (pt, w) = m.map(msg).unwrap();
        assert!(m.verify(msg, pt, &w).is_ok(), "verify failed at m={i}");
    }
}

#[test]
fn matches_noir_test_vector() {
    // m=7, T=256, t=0 gives x = 0 + 7*256 = 1792
    let m = mapper();
    let msg = Fq::from_u64(7);
    let (pt, w) = m.map(msg).unwrap();
    assert_eq!(pt.x, Fq::from_u64(1792));
    assert_eq!(w.tweak, 0);
    assert!(m.verify(msg, pt, &w).is_ok());
}

#[test]
fn injectivity() {
    let m = mapper();
    let mut seen = std::collections::HashSet::new();
    for i in 0u64..100 {
        let (pt, _) = m.map(Fq::from_u64(i)).unwrap();
        let key = format!("{:?}{:?}", pt.x, pt.y);
        assert!(seen.insert(key), "collision at {i}");
    }
}

#[test]
fn verify_rejects_bad_tweak() {
    let m = mapper();
    let msg = Fq::from_u64(7);
    let (pt, mut w) = m.map(msg).unwrap();
    w.tweak += 1;
    assert!(m.verify(msg, pt, &w).is_err());
}

#[test]
fn verify_reports_each_condition() {
    let m = mapper();
    let msg = Fq::from_u64(7);
    let (pt, w) = m.map(msg).unwrap();
    let mut bad_x = w;
    bad_x.tweak += 1;
    assert_eq!(m.verify(msg, pt, &bad_x), Err(AtlasError::InvalidWitness { reason: "x != t + m*T" }));
    let mut bad_z = w;
    bad_z.sqrt_witness = w.sqrt_witness.plus(&Fq::from_u64(1));
    assert_eq!(m.verify(msg, pt, &bad_z), Err(AtlasError::InvalidWitness { reason: "z^2 != y" }));
    let mut off_curve = pt;
    off_curve.y = pt.y.plus(&Fq::from_u64(1));
    let mut w_off = w;
    w_off.sqrt_witness = off_curve.y.sqrt().unwrap_or(Fq::zero());
    let r = m.verify(msg, off_curve, &w_off);
    assert!(r.is_err());
    assert_ne!(r, Err(AtlasError::InvalidWitness { reason: "x != t + m*T" }));
}

#[test]
fn map_fails_with_zero_bound() {
    let m = IncrementAndCheck::new(0);
    assert_eq!(
        m.map(Fq::from_u64(1)).unwrap_err(),
        AtlasError::MapToCurveFailed { attempts: 0, tweak_bound: 0 }
    );
}

#[test]
fn map_point_is_on_curve_and_tweak_is_first() {
    let m = IncrementAndCheck::new(256);
    for i in 0u64..10 {
        let msg = Fq::from_u64(i);
        let (pt, w) = m.map(msg).unwrap();
        assert!(pt.is_on_curve());
        assert_eq!(w.x, pt.x);
        assert_eq!(w.sqrt_witness.square(), pt.y);
        for t in 0..w.tweak {
            let x = Fq::from_u64(t).plus(&msg.times(&Fq::from_u64(256)));
            let found = try_make_point(x).map(|p| p.y.sqrt().is_some()).unwrap_or(false);
            assert!(!found);
        }
    }
}

#[test]
fn finds_valid_points() {
    let found = (0u64..100)
        .filter(|&i| try_make_point(Fq::from_u64(i)).is_some())
        .count();
    assert!(found > 20);
}

#[test]
fn all_points_on_curve() {
    for i in 0u64..100 {
        if let Some(pt) = try_make_point(Fq::from_u64(i)) {
            assert!(pt.is_on_curve());
            assert!(is_in_subgroup(&pt));
        }
    }
}

#[test]
fn canonical_y_keeps_squares_and_negates_others() {
    for i in 1u64..30 {
        let v = Fq::from_u64(i);
        let y = canonical_y(v);
        if v.sqrt().is_some() {
            assert_eq!(y, v);
        } else {
            assert_eq!(y, v.negate());
        }
    }
    assert_eq!(canonical_y(Fq::from_u64(4)), Fq::from_u64(4));
}

#[test]
fn verify_rejects_tweak_at_bound() {
    // message 7's point, x = 7*256 = 1792, read as message 6 with tweak 256
    let m = mapper();
    let (pt, w) = m.map(Fq::from_u64(7)).unwrap();
    assert_eq!(w.tweak, 0);
    let mut shifted = w;
    shifted.tweak = 256;
    assert_eq!(
        m.verify(Fq::from_u64(6), pt, &shifted),
        Err(AtlasError::InvalidWitness { reason: "tweak >= T" })
    );
    assert!(m.verify(Fq::from_u64(7), pt, &w).is_ok());
}
