//! Memory records of a zkVM and their packing into one integer.

use vstd::prelude::*;
use crate::field::{Bn254Fq, u128_to_fq, lemma_radix_unique};

verus! {

/// The integer packing of a record: address in bits 0..32, value in bits
/// 32..64, the write flag in bit 64 and the timestamp in bits 65..97.
pub open spec fn pack_spec(address: u32, value: u32, is_write: bool, timestamp: u32) -> nat {
    (address + value * 0x1_0000_0000nat + (if is_write {
        1nat
    } else {
        0nat
    }) * 0x1_0000_0000_0000_0000nat + timestamp * 0x2_0000_0000_0000_0000nat) as nat
}

/// One access to memory: where, what, whether it wrote, and when.
#[derive(Debug, Clone, Copy, PartialEq, Eq, Hash, Structural)]
pub struct MemoryRecord {
    pub address: u32,
    pub value: u32,
    pub is_write: bool,
    pub timestamp: u32,
}

impl MemoryRecord {
    /// The record with the given fields.
    pub fn new(address: u32, value: u32, is_write: bool, timestamp: u32) -> (r: Self)
        ensures
            r.address == address,
            r.value == value,
            r.is_write == is_write,
            r.timestamp == timestamp,
    {
        Self { address, value, is_write, timestamp }
    }

    /// The record packed into 97 bits:
    /// `[address:32 | value:32 | is_write:1 | timestamp:32]`, least significant first.
    pub fn pack(&self) -> (r: u128)
        ensures
            r == pack_spec(self.address, self.value, self.is_write, self.timestamp),
    {
        let a = self.address as u128;
        let v = self.value as u128;
        let w: u128 = if self.is_write {
            1
        } else {
            0
        };
        let t = self.timestamp as u128;
        proof {
            assert(a | (v << 32u128) | (w << 64u128) | (t << 65u128) == a + v * 0x1_0000_0000
                + w * 0x1_0000_0000_0000_0000 + t * 0x2_0000_0000_0000_0000) by (bit_vector)
                requires
                    a < 0x1_0000_0000,
                    v < 0x1_0000_0000,
                    w < 2,
                    t < 0x1_0000_0000,
            ;
        }
        a | (v << 32u128) | (w << 64u128) | (t << 65u128)
    }

    /// The packed record as a BN254 base-field element.
    pub fn to_fq(&self) -> (r: Bn254Fq)
        ensures
            r@ == pack_spec(self.address, self.value, self.is_write, self.timestamp),
    {
        u128_to_fq(self.pack())
    }
}

/// Packing is injective: records with different fields pack differently.
pub proof fn law_pack_injective(a: MemoryRecord, b: MemoryRecord)
    requires
        pack_spec(a.address, a.value, a.is_write, a.timestamp) == pack_spec(
            b.address,
            b.value,
            b.is_write,
            b.timestamp,
        ),
    ensures
        a == b,
{
    let wa: nat = if a.is_write { 1 } else { 0 };
    let wb: nat = if b.is_write { 1 } else { 0 };
    let ha = (a.value + 0x1_0000_0000 * (wa + 2 * a.timestamp)) as nat;
    let hb = (b.value + 0x1_0000_0000 * (wb + 2 * b.timestamp)) as nat;
    assert(a.address + 0x1_0000_0000 * ha == b.address + 0x1_0000_0000 * hb);
    lemma_radix_unique(a.address as nat, ha, b.address as nat, hb, 0x1_0000_0000);
    lemma_radix_unique(a.value as nat, (wa + 2 * a.timestamp) as nat, b.value as nat, (wb + 2 * b.timestamp) as nat, 0x1_0000_0000);
    lemma_radix_unique(wa, a.timestamp as nat, wb, b.timestamp as nat, 2);
}

} // verus!
