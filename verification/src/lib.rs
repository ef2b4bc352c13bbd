//! A verified attestation ledger for photo hashes.
//!
//! The ledger records, for each photo identified by a 256-bit content hash,
//! who registered it, when, and a commitment that later lets the registrant
//! prove knowledge of a secret without revealing it.

pub mod address;
pub mod attestation;
pub mod be_bytes;
pub mod commitment;
pub mod keccak;
pub mod ledger;
pub mod model;
pub mod table;
pub mod u256;

