use atlas::field::{bytes_to_fq, fq_to_bytes, u128_to_fq, u64_to_fq, Bn254Fq, Fq};
use atlas::memory::MemoryRecord;

#[test]
fn bytes_to_fq_is_deterministic() {
    assert_eq!(bytes_to_fq(b"hello"), bytes_to_fq(b"hello"));
}

#[test]
fn distinct_inputs_give_distinct_elements() {
    assert_ne!(bytes_to_fq(b"a"), bytes_to_fq(b"b"));
}

#[test]
fn pack_distinguishes_rw_flag() {
    let w = MemoryRecord::new(1, 1, true, 0);
    let r = MemoryRecord::new(1, 1, false, 0);
    assert_ne!(w.pack(), r.pack());
}

#[test]
fn pack_distinguishes_timestamp() {
    let a = MemoryRecord::new(0, 0, false, 10);
    let b = MemoryRecord::new(0, 0, false, 11);
    assert_ne!(a.pack(), b.pack());
}

#[test]
fn pack_layout() {
    let r = MemoryRecord::new(0x100, 42, true, 1);
    assert_eq!(r.pack(), 0x100u128 | (42u128 << 32) | (1u128 << 64) | (1u128 << 65));
    let max = MemoryRecord::new(u32::MAX, u32::MAX, true, u32::MAX);
    assert_eq!(max.pack(), (1u128 << 97) - 1);
    assert_eq!(MemoryRecord::new(0, 0, false, 0).pack(), 0);
}

#[test]
fn record_to_fq_is_packed_value() {
    let r = MemoryRecord::new(7, 9, false, 3);
    assert_eq!(r.to_fq(), u128_to_fq(r.pack()));
    assert_eq!(MemoryRecord::new(5, 0, false, 0).to_fq(), u64_to_fq(5));
}

#[test]
fn u128_to_fq_matches_u64_below_two_to_the_64() {
    assert_eq!(u128_to_fq(12345), u64_to_fq(12345));
    assert_eq!(u128_to_fq(u64::MAX as u128), u64_to_fq(u64::MAX));
    assert_ne!(u128_to_fq(1u128 << 64), u64_to_fq(0));
}

#[test]
fn fq_to_bytes_is_little_endian() {
    let b = fq_to_bytes(&u64_to_fq(0x0102));
    assert_eq!(b.len(), 32);
    assert_eq!(b[0], 0x02);
    assert_eq!(b[1], 0x01);
    assert!(b[2..].iter().all(|&x| x == 0));
    let hi = fq_to_bytes(&u128_to_fq(1u128 << 64));
    assert_eq!(hi[8], 1);
    assert_eq!(Bn254Fq::from_le_bytes_mod_order(&hi), u128_to_fq(1u128 << 64));
}

#[test]
fn field_arithmetic_wraps_at_the_modulus() {
    let minus_one = Fq::from_i64(-1);
    assert_eq!(minus_one.plus(&Fq::from_u64(1)), Fq::zero());
    assert_eq!(Fq::from_u64(3).times(&Fq::from_u64(5)), Fq::from_u64(15));
    assert_eq!(Fq::from_u64(4).sqrt().map(|z| z.square()), Some(Fq::from_u64(4)));
    assert_eq!(Fq::from_u64(7).negate().plus(&Fq::from_u64(7)), Fq::zero());
}
