use vstd::prelude::*;

verus! {

/// Why a conversion stopped. Every error aborts the whole conversion.
#[derive(Debug, Clone, PartialEq, Eq)]
pub enum ConversionError {
    /// A G1 point could not be decoded, or is not on the curve.
    G1CompressionError,
    /// A G2 point could not be decoded, or is not on the curve.
    G2CompressionError,
    /// An unknown flag pattern, or a public input that is not a number of at most 32 bytes.
    InvalidInput,
    /// A byte buffer shorter than its layout needs, or of a length no point has.
    InvalidLength,
    /// A decimal coordinate or scalar that is not a number below the field modulus.
    InvalidFieldElement,
    /// The key declares another number of public inputs than were supplied.
    PublicInputCountMismatch { declared: usize, supplied: usize },
    /// The key does not hold one commitment point more than there are public inputs.
    CommitmentCountMismatch { found: usize, public_inputs: usize },
    /// More values than the fixed slots of the target schema can hold.
    TooManyValues { found: usize, capacity: usize },
    /// The decoded proof does not verify against the key.
    VerificationFailed,
}

} // verus!
