//! The failure kinds that the core surfaces to its callers.

use vstd::prelude::*;

verus! {

/// Every fallible operation of the core returns one of these kinds.
/// Failures are surfaced to the immediate caller; nothing is retried
/// internally beyond the bounded resampling inside key generation.
#[derive(Clone, Copy, Debug, PartialEq, Eq, Structural)]
pub enum CryptoError {
    /// Key generation could not produce suitable key material within its
    /// retry budget.
    KeyGenerationError,
    /// Bytes presented as a serialized key do not decode to a key.
    InvalidKeyEncoding,
    /// Bytes presented as a serialized ciphertext do not decode to a
    /// ciphertext.
    InvalidCiphertextEncoding,
    /// A ciphertext was presented for decryption under a key other than
    /// the one it was produced under; treated as a corruption or tamper
    /// signal.
    InvalidCiphertext,
    /// Homomorphic addition was attempted on operands under different
    /// keys or with incompatible encodings.
    IncompatibleOperands,
    /// A decrypted value exceeds the declared 64-bit plaintext domain:
    /// the accumulated sum left the safe domain even though it stayed
    /// below the modulus.
    DecodeOverflow,
    /// An accumulator was fed a ciphertext under a different key than the
    /// earlier ones in the same fold.
    AccumulatorKeyMismatch,
}

} // verus!
