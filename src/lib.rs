//! Conversion of Groth16 proofs and verification keys over BN254 into the
//! canonical JSON schema of a circuit-based verifier.
pub mod curve;
pub mod decode;
pub mod encoding;
pub mod error;
pub mod field;
pub mod laws;
pub mod layout;
pub mod points;
pub mod schema;
pub mod slots;
pub mod snarkjs;
pub mod sp1;
pub mod witness;
