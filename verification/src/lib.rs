//! A compact Ed25519 signature library: key derivation from a seed,
//! deterministic or noise-randomized signing, and verification with
//! canonical-signature and weak-key rejection.
//!
//! The SHA-512 digest and the Curve25519 scalar and group arithmetic are
//! outside collaborators, reached through narrow trusted wrappers; the
//! protocol layer built on them is verified.

pub mod bytes;
pub mod digest;
pub mod ed25519;
pub mod group;
pub mod rng;
pub mod scalar;

pub use crate::ed25519::{Error, KeyPair, Noise, PublicKey, SecretKey, Seed, Signature};
