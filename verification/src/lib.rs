//! Verifiable ElGamal encryption of encoded message blocks over the Pallas curve.
//!
//! A prover shows that a public ciphertext encrypts a secret message block
//! after the block was mapped onto a curve point. This crate holds the data
//! types, the encoding, the cryptosystem, the block codec, the relation that
//! binds them, and the layout of the public inputs.

pub mod circuit;
pub mod codec;
pub mod curve;
pub mod elgamal;
pub mod encode;
pub mod extended_elgamal;
pub mod field;
pub mod instance;
pub mod limbs;
pub mod protocol;
pub mod relation;
pub mod statement;
