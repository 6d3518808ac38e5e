use atlas::error::AtlasError;
use atlas::field::Fq;
use atlas::memory::MemoryRecord;
use atlas::rolling::RollingMemoryDigest;

fn to_fq(r: &MemoryRecord) -> Fq {
    Fq::from_u128(r.pack())
}

#[test]
fn consistent_logs_pass() {
    let mut r = RollingMemoryDigest::new();
    let msgs: Vec<Fq> = (0u64..10).map(Fq::from_u64).collect();

    for &m in &msgs {
        r.record_write(m).unwrap();
    }
    for &m in &msgs {
        r.record_read(m).unwrap();
    }
    assert!(r.assert_consistent().is_ok());
}

#[test]
fn inconsistent_logs_fail() {
    let mut r = RollingMemoryDigest::new();
    r.record_write(Fq::from_u64(1)).unwrap();
    r.record_read(Fq::from_u64(2)).unwrap();
    assert!(r.assert_consistent().is_err());
    assert_eq!(r.assert_consistent(), Err(AtlasError::MemoryInconsistent));
}

#[test]
fn order_does_not_matter() {
    let mut r = RollingMemoryDigest::new();
    let a = Fq::from_u64(10);
    let b = Fq::from_u64(20);

    r.record_write(a).unwrap();
    r.record_write(b).unwrap();

    r.record_read(b).unwrap();
    r.record_read(a).unwrap();

    assert!(r.assert_consistent().is_ok());
}

#[test]
fn memory_records_round_trip() {
    let ops = [(0x100, 42, true, 1), (0x200, 99, true, 2), (0x100, 42, false, 3)];
    let mut rolling = RollingMemoryDigest::default();
    for &(addr, val, w, ts) in &ops {
        let f = to_fq(&MemoryRecord::new(addr, val, w, ts));
        rolling.record_write(f).unwrap();
        rolling.record_read(f).unwrap();
    }
    assert!(rolling.assert_consistent().is_ok());
    assert_eq!(rolling.write_d(), rolling.read_d());

    let mut bad = RollingMemoryDigest::new();
    bad.record_write(to_fq(&MemoryRecord::new(0x100, 42, true, 1))).unwrap();
    bad.record_read(to_fq(&MemoryRecord::new(0x100, 99, false, 1))).unwrap();
    assert!(bad.assert_consistent().is_err());
}

#[test]
fn new_digests_are_empty() {
    let r = RollingMemoryDigest::new();
    assert!(r.write_d().is_empty_digest());
    assert!(r.read_d().is_empty_digest());
    assert!(r.assert_consistent().is_ok());
}

#[test]
fn digests_are_hashes_of_logs() {
    let mut r = RollingMemoryDigest::new();
    let h = atlas::hasher::MultisetHash::new(256);
    r.record_write(Fq::from_u64(10)).unwrap();
    r.record_read(Fq::from_u64(20)).unwrap();
    r.record_write(Fq::from_u64(20)).unwrap();
    r.record_read(Fq::from_u64(10)).unwrap();
    let (w, _) = h.hash_multiset(&[Fq::from_u64(10), Fq::from_u64(20)]).unwrap();
    let (q, _) = h.hash_multiset(&[Fq::from_u64(20), Fq::from_u64(10)]).unwrap();
    assert_eq!(r.write_d(), w);
    assert_eq!(r.read_d(), q);
    assert!(r.assert_consistent().is_ok());
}
