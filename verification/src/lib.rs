//! ATLAS: constraint-friendly map-to-curve relations over the Grumpkin
//! curve, the multiset hash built on them, and relational BLS signatures.

pub mod circuits;
pub mod field;
pub mod grumpkin;
pub mod subgroup;
pub mod error;
pub mod relation;
pub mod digest;
pub mod hasher;
pub mod rolling;
pub mod hash;
pub mod memory;
pub mod large_message;
pub mod bn254;
pub mod keypair;
pub mod signature;
pub mod scheme;
