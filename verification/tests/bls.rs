use ark_ff::{BigInteger, PrimeField, UniformRand};
use atlas::bn254::{pairing, G1Point, G2Point};
use atlas::error::AtlasError;
use atlas::field::Bn254Fq;
use atlas::field::Fq;
use atlas::keypair::BlsKeyPair;
use atlas::large_message::{compress, recompute};
use atlas::scheme::RelationalBls;
use rand::rngs::StdRng;
use rand::SeedableRng;

fn rng() -> StdRng {
    StdRng::seed_from_u64(42)
}

fn bls() -> RelationalBls {
    RelationalBls::new(128)
}

fn generate(rng: &mut StdRng) -> BlsKeyPair {
    let sk = ark_bn254::Fr::rand(rng);
    BlsKeyPair::from_secret_key(Fq::from_le_bytes_mod_order(&sk.into_bigint().to_bytes_le()))
}

#[test]
fn compress_recompute_matches() {
    let msg = b"hello this is a large ethereum block header";
    let (compressed, witness) = compress(msg).unwrap();
    let recomputed = recompute(&witness.chunks, &witness.challenge).unwrap();
    assert_eq!(compressed, recomputed);
}

#[test]
fn different_messages_different_compressed() {
    let (c1, _) = compress(b"block1").unwrap();
    let (c2, _) = compress(b"block2").unwrap();
    assert_ne!(c1, c2);
}

#[test]
fn empty_message_fails() {
    assert!(compress(b"").is_err());
    assert_eq!(compress(b"").unwrap_err(), AtlasError::MessageOutOfRange { max_bits: 0 });
    assert_eq!(
        recompute(&[], &Fq::from_u64(3)).unwrap_err(),
        AtlasError::MessageOutOfRange { max_bits: 0 }
    );
}

#[test]
fn chunks_are_fifteen_byte_little_endian() {
    let msg: Vec<u8> = (1u8..=31).collect();
    let (_, w) = compress(&msg).unwrap();
    assert_eq!(w.chunks.len(), 3);
    let mut first = [0u8; 16];
    first[..15].copy_from_slice(&msg[..15]);
    assert_eq!(w.chunks[0], Fq::from_u128(u128::from_le_bytes(first)));
    assert_eq!(w.chunks[2], Fq::from_u64(31));
    assert_eq!(compress(&[7u8; 15]).unwrap().1.chunks.len(), 1);
}

#[test]
fn recompute_weights_by_powers() {
    let c = Fq::from_u64(10);
    let r = recompute(&[Fq::from_u64(1), Fq::from_u64(2), Fq::from_u64(3)], &c).unwrap();
    assert_eq!(r, Fq::from_u64(321));
    assert_eq!(recompute(&[Fq::from_u64(9)], &c).unwrap(), Fq::from_u64(9));
}

#[test]
fn sign_and_verify() {
    let kp = generate(&mut rng());
    let msg = Fq::from_u64(12345);
    let sig = bls().sign(&kp, msg).unwrap();
    assert!(bls().verify(&kp.verification_key, msg, &sig).is_ok());
    assert_eq!(bls().verify_checked(&kp.verification_key, msg, &sig), Some(Ok(())));
}

#[test]
fn wrong_message_fails() {
    let kp = generate(&mut rng());
    let sig = bls().sign(&kp, Fq::from_u64(1)).unwrap();
    assert!(bls().verify(&kp.verification_key, Fq::from_u64(2), &sig).is_err());
}

#[test]
fn wrong_key_fails() {
    let mut r = rng();
    let kp1 = generate(&mut r);
    let kp2 = generate(&mut r);
    let msg = Fq::from_u64(1);
    let sig = bls().sign(&kp1, msg).unwrap();
    assert!(bls().verify(&kp2.verification_key, msg, &sig).is_err());
    assert_eq!(
        bls().verify(&kp2.verification_key, msg, &sig),
        Err(AtlasError::BlsError { reason: "pairing check failed: e(sigma,g2) != e(hm,vk)" })
    );
}

#[test]
fn deterministic() {
    let kp = generate(&mut rng());
    let msg = Fq::from_u64(99);
    let s1 = bls().sign(&kp, msg).unwrap();
    let s2 = bls().sign(&kp, msg).unwrap();
    assert_eq!(s1.sigma, s2.sigma);
}

#[test]
fn sign_large_and_verify_large() {
    let kp = generate(&mut rng());
    let block: Vec<u8> = (0u8..=255).collect();
    let (sig, witness) = bls().sign_large(&kp, &block).unwrap();
    assert_eq!(witness.chunks.len(), 18);
    assert!(bls().verify_large(&kp.verification_key, &block, &sig, &witness).is_ok());
    assert_eq!(
        bls().verify_large_checked(&kp.verification_key, &block, &sig, &witness),
        Some(Ok(()))
    );
    assert!(bls().sign_large(&kp, b"").is_err());
}

#[test]
fn generators_and_multiples() {
    let g1 = G1Point::generator();
    assert_eq!(g1.x, Bn254Fq::from_u64(1));
    assert_eq!(g1.y, Bn254Fq::from_u64(2));
    assert!(!g1.infinity);
    let two = Fq::from_u64(2);
    let d = g1.mul(&two);
    assert_ne!(d, g1);
    assert!(g1.mul(&Fq::zero()).infinity);
    assert_eq!(g1.mul(&Fq::from_u64(1)), g1);
    let g2 = G2Point::generator();
    let lhs = pairing(&d, &g2).unwrap();
    let rhs = pairing(&g1, &g2.mul(&two)).unwrap();
    assert_eq!(lhs.len(), 12);
    assert_eq!(lhs, rhs);
    assert_ne!(lhs, pairing(&g1, &g2).unwrap());
}

#[test]
fn key_pair_from_secret_key() {
    let sk = Fq::from_u64(5);
    let kp = BlsKeyPair::from_secret_key(sk);
    assert_eq!(kp.secret_key, sk);
    assert_eq!(kp.verification_key, G2Point::generator().mul(&sk));
    assert_ne!(kp.verification_key, G2Point::generator());
}
