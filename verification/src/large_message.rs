//! Compression of a long message into one field element: the message is cut
//! into 15-byte chunks, and the chunks are weighted by the powers of a
//! challenge derived from the message by SHA-256.

use vstd::prelude::*;
use vstd::arithmetic::div_mod::{lemma_add_mod_noop, lemma_mul_mod_noop_left, lemma_mul_mod_noop_right};
use crate::error::AtlasError;
use crate::field::{Fq, fq_modulus, fq_add, fq_mul, le_value};
use crate::hash::{sha256, sha256_spec};
use crate::hasher::values;

verus! {

/// `base` to the power `e`.
pub open spec fn power(base: nat, e: nat) -> nat
    decreases e,
{
    if e == 0 {
        1
    } else {
        power(base, (e - 1) as nat) * base
    }
}

/// `chunks[0] + chunks[1] * c + chunks[2] * c^2 + ...`, over the integers.
pub open spec fn weighted_sum(chunks: Seq<nat>, c: nat) -> nat
    decreases chunks.len(),
{
    if chunks.len() == 0 {
        0
    } else {
        weighted_sum(chunks.drop_last(), c) + power(c, (chunks.len() - 1) as nat) * chunks.last()
    }
}

/// The number of 15-byte chunks of a message of `n` bytes (the last may be shorter).
pub open spec fn num_chunks(n: nat) -> nat {
    (n + 14) / 15
}

/// The bytes of chunk `i` of a message.
pub open spec fn chunk_bytes(msg: Seq<u8>, i: int) -> Seq<u8> {
    let end = if 15 * i + 15 <= msg.len() {
        15 * i + 15
    } else {
        msg.len() as int
    };
    msg.subrange(15 * i, end)
}

/// The little-endian values of the 15-byte chunks of a message, in order.
pub open spec fn chunk_values(msg: Seq<u8>) -> Seq<nat> {
    Seq::new(num_chunks(msg.len()), |i: int| le_value(chunk_bytes(msg, i)))
}

/// The challenge of a message: its SHA-256 digest read as a little-endian
/// integer, reduced into the field.
pub open spec fn challenge_spec(msg: Seq<u8>) -> nat {
    le_value(sha256_spec(msg)) % fq_modulus()
}

/// The chunks of a message and the challenge they were weighted with.
#[derive(Debug, Clone)]
pub struct LargeMessageWitness {
    pub chunks: Vec<Fq>,
    pub challenge: Fq,
}

/// A little-endian byte string is below `256^len`.
proof fn lemma_le_value_bound(s: Seq<u8>)
    ensures
        le_value(s) < power(256, s.len()),
    decreases s.len(),
{
    if s.len() > 0 {
        lemma_le_value_bound(s.drop_first());
    }
}

/// The little-endian value of `msg[start..end]`, for at most 15 bytes.
fn le_chunk_value(msg: &[u8], start: usize, end: usize) -> (r: u128)
    requires
        start <= end <= msg@.len(),
        end - start <= 15,
    ensures
        r == le_value(msg@.subrange(start as int, end as int)),
{
    let mut acc: u128 = 0;
    let mut j: usize = end;
    assert(msg@.subrange(end as int, end as int) =~= Seq::<u8>::empty());
    while j > start
        invariant
            start <= j <= end <= msg@.len(),
            end - start <= 15,
            acc == le_value(msg@.subrange(j as int, end as int)),
        decreases j - start,
    {
        proof {
            lemma_le_value_bound(msg@.subrange(j as int, end as int));
            reveal_with_fuel(power, 16);
            assert(power(256, (end - j) as nat) <= power(256, 14)) by {
                lemma_power_monotone(256, (end - j) as nat, 14);
            }
            assert(msg@.subrange(j - 1, end as int).drop_first() =~= msg@.subrange(
                j as int,
                end as int,
            ));
        }
        j = j - 1;
        acc = acc * 256 + msg[j] as u128;
    }
    acc
}

/// Powers of a base of at least one grow with the exponent.
proof fn lemma_power_monotone(base: nat, e1: nat, e2: nat)
    requires
        base >= 1,
        e1 <= e2,
    ensures
        power(base, e1) <= power(base, e2),
    decreases e2,
{
    if e1 < e2 {
        lemma_power_monotone(base, e1, (e2 - 1) as nat);
        assert(power(base, (e2 - 1) as nat) <= power(base, (e2 - 1) as nat) * base) by (nonlinear_arith)
            requires
                base >= 1,
        ;
    }
}

/// `chunks[0] + chunks[1] * c + chunks[2] * c^2 + ...` in the field, for a
/// nonempty sequence of chunks; fails on an empty one.
pub fn recompute(chunks: &[Fq], challenge: &Fq) -> (r: Result<Fq, AtlasError>)
    ensures
        chunks@.len() == 0 ==> r == Err::<Fq, AtlasError>(AtlasError::MessageOutOfRange { max_bits: 0 }),
        chunks@.len() > 0 ==> (r matches Ok(v) && v@ == weighted_sum(values(chunks@), challenge@)
            % fq_modulus()),
{
    if chunks.len() == 0 {
        return Err(AtlasError::MessageOutOfRange { max_bits: 0 });
    }
    let ghost vals = values(chunks@);
    let ghost c = challenge@;
    let mut result = chunks[0];
    let mut r_power = *challenge;
    proof {
        use_type_invariant(&result);
        use_type_invariant(&r_power);
        Fq::lemma_canonical(result);
        Fq::lemma_canonical(r_power);
        assert(vals.take(1).drop_last() =~= Seq::<nat>::empty());
        assert(vals.take(1).last() == result@);
        assert(power(c, 0) == 1);
        assert(power(c, 1) == power(c, 0) * c);
        assert(weighted_sum(Seq::<nat>::empty(), c) == 0);
        assert(weighted_sum(vals.take(1), c) == weighted_sum(vals.take(1).drop_last(), c) + power(
            c,
            0,
        ) * vals.take(1).last());
    }
    let mut i: usize = 1;
    while i < chunks.len()
        invariant
            1 <= i <= chunks@.len(),
            vals == values(chunks@),
            c == challenge@,
            result@ == weighted_sum(vals.take(i as int), c) % fq_modulus(),
            r_power@ == power(c, i as nat) % fq_modulus(),
        decreases chunks@.len() - i,
    {
        let ghost ws = weighted_sum(vals.take(i as int), c);
        let ghost p = power(c, i as nat);
        let ghost ch = chunks@[i as int]@;
        result = result.plus(&r_power.times(&chunks[i]));
        r_power = r_power.times(challenge);
        proof {
            reveal(fq_add);
            reveal(fq_mul);
            assert(vals.take(i + 1).drop_last() =~= vals.take(i as int));
            assert(vals.take(i + 1).last() == ch);
            lemma_mul_mod_noop_left(p as int, ch as int, fq_modulus() as int);
            lemma_add_mod_noop(ws as int, (p * ch) as int, fq_modulus() as int);
            lemma_mul_mod_noop_left(ws as int, 1, fq_modulus() as int);
            assert(result@ == (ws + p * ch) % fq_modulus());
            lemma_mul_mod_noop_left(p as int, c as int, fq_modulus() as int);
        }
        i = i + 1;
    }
    proof {
        assert(vals.take(chunks@.len() as int) =~= vals);
    }
    Ok(result)
}

/// The challenge of a message: SHA-256 of the message, read as a
/// little-endian integer and reduced into the field.
fn derive_challenge(message: &[u8]) -> (r: Fq)
    ensures
        r@ == challenge_spec(message@),
        r@ == le_value(sha256_spec(message@)) % fq_modulus(),
{
    let hash = sha256(message);
    Fq::from_le_bytes_mod_order(hash.as_slice())
}

/// `k` chunks of 15 bytes, the last nonempty, cover exactly `n` bytes.
proof fn lemma_num_chunks(n: nat, k: nat)
    requires
        n <= 15 * k,
        k == 0 || 15 * (k - 1) < n,
    ensures
        k == num_chunks(n),
{
    assert((n + 14) / 15 == k) by (nonlinear_arith)
        requires
            n <= 15 * k,
            k == 0 || 15 * (k - 1) < n,
    ;
}

/// Compresses a nonempty message: its 15-byte chunks, read as little-endian
/// integers, weighted by the powers of the message's challenge; with the
/// chunks and challenge as witness. Fails on an empty message.
pub fn compress(message: &[u8]) -> (r: Result<(Fq, LargeMessageWitness), AtlasError>)
    ensures
        message@.len() == 0 ==> r == Err::<(Fq, LargeMessageWitness), AtlasError>(
            AtlasError::MessageOutOfRange { max_bits: 0 },
        ),
        message@.len() > 0 ==> (r matches Ok((c, w)) && values(w.chunks@) == chunk_values(message@)
            && w.chunks@.len() > 0 && w.challenge@ == challenge_spec(message@) && c@ == weighted_sum(
            chunk_values(message@),
            challenge_spec(message@),
        ) % fq_modulus()),
        message@.len() > 0 ==> (r matches Ok((c, w)) && w.challenge@ == le_value(sha256_spec(message@))
            % fq_modulus() && c@ == weighted_sum(
            chunk_values(message@),
            le_value(sha256_spec(message@)) % fq_modulus(),
        ) % fq_modulus()),
{
    if message.len() == 0 {
        return Err(AtlasError::MessageOutOfRange { max_bits: 0 });
    }
    let n = message.len();
    let mut chunks: Vec<Fq> = Vec::new();
    let mut start: usize = 0;
    while start < n
        invariant
            n == message@.len(),
            start <= n,
            start == (if 15 * chunks@.len() <= n {
                15 * chunks@.len()
            } else {
                n as nat
            }),
            chunks@.len() == 0 || 15 * (chunks@.len() - 1) < n,
            forall|i: int|
                0 <= i < chunks@.len() ==> (#[trigger] chunks@[i])@ == le_value(
                    chunk_bytes(message@, i),
                ),
        decreases n - start,
    {
        let end = if n - start > 15 {
            start + 15
        } else {
            n
        };
        let v = le_chunk_value(message, start, end);
        chunks.push(Fq::from_u128(v));
        start = end;
    }
    proof {
        lemma_num_chunks(n as nat, chunks@.len());
        assert(values(chunks@) =~= chunk_values(message@));
        assert(values(chunks@).len() == chunks@.len());
    }
    let challenge = derive_challenge(message);
    let compressed = recompute(chunks.as_slice(), &challenge)?;
    Ok((compressed, LargeMessageWitness { chunks, challenge }))
}

/// The challenge of a message is the SHA-256 digest of the message, read as
/// a little-endian integer and reduced modulo the field order.
pub proof fn law_challenge_is_sha256(message: Seq<u8>)
    ensures
        challenge_spec(message) == le_value(sha256_spec(message)) % fq_modulus(),
{
}

/// Recomputing from the witness of `compress` gives back the compressed
/// value: a witness with the chunks and challenge of a nonempty message has
/// chunks, and its weighted sum is the compressed value.
pub proof fn law_compress_recompute(message: Seq<u8>, compressed: Fq, chunks: Seq<Fq>, challenge: Fq)
    requires
        message.len() > 0,
        values(chunks) == chunk_values(message),
        challenge@ == challenge_spec(message),
        compressed@ == weighted_sum(chunk_values(message), challenge_spec(message)) % fq_modulus(),
    ensures
        chunks.len() > 0,
        compressed@ == weighted_sum(values(chunks), challenge@) % fq_modulus(),
{
    assert(values(chunks).len() == chunks.len());
}

} // verus!
