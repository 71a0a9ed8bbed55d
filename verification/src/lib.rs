//! An embeddable additively homomorphic encryption core built on the
//! Paillier cryptosystem: key generation, encryption of 64-bit integers,
//! decryption, homomorphic addition of ciphertexts, a streaming sum
//! accumulator, and a byte codec with published size bounds.
//!
//! Combining two ciphertexts with [`paillier::paillier_add`] yields a
//! ciphertext of the sum of their plaintexts; untrusted parties can thus
//! aggregate encrypted values without the decryption key.

pub mod accumulator;
pub mod avg;
pub mod backend;
pub mod errors;
pub mod keys;
pub mod paillier;
pub mod wire;
