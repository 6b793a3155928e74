//! A Schnorr signature scheme over the Ristretto prime-order group.
//!
//! The group arithmetic itself (scalar field operations, point addition and
//! scalar multiplication, canonical encodings) is supplied by the
//! `curve25519-dalek` crate; this crate owns the protocol: the signature
//! value type, the `sign` and `verify` algorithms, and their algebra.

mod field;
mod group;
mod schnorr;

pub use schnorr::RistrettoPublicKey;
pub use schnorr::RistrettoSchnorr;
pub use schnorr::RistrettoSecretKey;
