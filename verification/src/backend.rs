//! Trusted boundary to the big-integer Paillier backend.
//!
//! Every call into the `kzen_paillier` crate (modular arithmetic, key
//! generation) and into `ciborium` (the serialized form of key material)
//! is made here, behind small functions whose bodies the verifier does
//! not read. Their contracts state only what the backend's sources and
//! documentation show; the rest of the crate is verified against those
//! contracts.
//!
//! Key bytes are the CBOR serialization that `kzen_paillier` defines for
//! its keys (big integers as decimal strings). A raw ciphertext is
//! carried as the ASCII decimal form of its value in `[0, n^2)`.

use vstd::prelude::*;

use crate::errors::CryptoError;
use curv::arithmetic::traits::Converter;
use kzen_paillier::{Decrypt, Encrypt, KeyGeneration};

verus! {

/// Bit length of the modulus produced by key generation.
pub const MODULUS_BITS: usize = 2048;

/// Upper bound, in bytes, on a serialized encryption key: the modulus
/// has at most 2049 bits, hence at most 618 decimal digits, and the CBOR
/// framing around that digit string adds 6 bytes; rounded up with slack.
pub const ENCRYPTION_KEY_MAX_SIZE: usize = 640;

/// Upper bound, in bytes, on the serialized core of a decryption key:
/// two primes of at most 1025 bits, at most 309 decimal digits each,
/// inside 11 bytes of CBOR framing; rounded up with slack.
pub const DECRYPTION_KEY_CORE_MAX_SIZE: usize = 660;

/// Upper bound, in bytes, on the decimal form of a raw ciphertext: a
/// value below `n^2 < 2^4098` has at most 1234 decimal digits; rounded
/// up with slack.
pub const RAW_CIPHERTEXT_MAX_SIZE: usize = 1260;

// ---------------------------------------------------------------------
// Names for what the backend computes. These spec functions have no
// bodies: the contracts of the trusted functions below are the only
// facts the verifier knows about them.
// ---------------------------------------------------------------------

/// Whether `ek` is the serialization of an encryption key as key
/// generation produces it: a modulus that is the product of two large
/// primes, in the backend's CBOR form.
pub uninterp spec fn ek_sound(ek: Seq<u8>) -> bool;

/// Whether `dk` is the serialization of a decryption key as key
/// generation produces it: two large primes in the backend's CBOR form.
pub uninterp spec fn dk_sound(dk: Seq<u8>) -> bool;

/// The modulus `n` carried by the serialized encryption key `ek`.
pub uninterp spec fn ek_modulus(ek: Seq<u8>) -> nat;

/// The modulus `p * q` of the serialized decryption key `dk`.
pub uninterp spec fn dk_modulus(dk: Seq<u8>) -> nat;

/// Whether `ek` deserializes as an encryption key at all (the syntactic
/// check; `ek_sound` additionally demands genuine key material).
pub uninterp spec fn ek_parses(ek: Seq<u8>) -> bool;

/// Whether `dk` deserializes as a decryption key at all.
pub uninterp spec fn dk_parses(dk: Seq<u8>) -> bool;

/// Whether `c` is the decimal form of a raw Paillier ciphertext under a
/// modulus `n`: an element of the ciphertext group as encryption and
/// homomorphic addition produce it.
pub uninterp spec fn cipher_sound(n: nat, c: Seq<u8>) -> bool;

/// The plaintext residue, in `[0, n)`, that decryption under the key
/// with modulus `n` recovers from the raw ciphertext `c`. Decryption is
/// deterministic, so this is a function of `n` and `c` alone.
pub uninterp spec fn cipher_value(n: nat, c: Seq<u8>) -> nat;

/// The decimal form of the homomorphic sum of raw ciphertexts `a` and
/// `b` under the key `ek`: their product modulo `n^2`, a function of its
/// arguments alone.
pub uninterp spec fn sum_bytes(ek: Seq<u8>, a: Seq<u8>, b: Seq<u8>) -> Seq<u8>;

// ---------------------------------------------------------------------
// The trusted calls.
// ---------------------------------------------------------------------

/// Generates a fresh key pair and returns both keys serialized,
/// encryption key first.
///
/// Relies on `Paillier::keypair` (kzen_paillier): the modulus is the
/// product of two sampled 1024-bit primes, so it exceeds `u64::MAX`;
/// and on `ciborium::ser::into_writer`, whose output for such keys fits
/// the documented size bounds. The primes come from a secure random
/// source, so nothing else is promised about the bytes.
#[verifier::external_body]
pub(crate) fn keypair_bytes() -> (r: (Vec<u8>, Vec<u8>))
    ensures
        ek_sound(r.0@),
        dk_sound(r.1@),
        ek_parses(r.0@),
        dk_parses(r.1@),
        dk_modulus(r.1@) == ek_modulus(r.0@),
        ek_modulus(r.0@) > u64::MAX as nat,
        r.0@.len() <= ENCRYPTION_KEY_MAX_SIZE,
        r.1@.len() <= DECRYPTION_KEY_CORE_MAX_SIZE,
{
    let (ek, dk) = <kzen_paillier::Paillier as KeyGeneration<kzen_paillier::Keypair>>::keypair().keys();
    let mut ek_vec: Vec<u8> = Vec::new();
    let mut dk_vec: Vec<u8> = Vec::new();
    ciborium::ser::into_writer(&ek, &mut ek_vec).unwrap();
    ciborium::ser::into_writer(&dk, &mut dk_vec).unwrap();
    (ek_vec, dk_vec)
}

/// Encrypts `m` under the serialized encryption key `ek` and returns the
/// decimal form of the raw ciphertext.
///
/// Relies on `Paillier::encrypt` (kzen_paillier): a fresh blinding
/// factor is drawn from a secure random source on every call, so the
/// bytes themselves are not a function of the arguments; decrypting the
/// result under the paired key recovers `m` (the backend's round-trip
/// guarantee, `m` being far below the modulus).
#[verifier::external_body]
pub(crate) fn encrypt_bytes(ek: &Vec<u8>, m: u64) -> (r: Vec<u8>)
    requires
        ek_sound(ek@),
    ensures
        cipher_sound(ek_modulus(ek@), r@),
        cipher_value(ek_modulus(ek@), r@) == m as nat,
        r@.len() <= RAW_CIPHERTEXT_MAX_SIZE,
{
    let key: kzen_paillier::EncryptionKey = ciborium::de::from_reader(ek.as_slice()).unwrap();
    let p = kzen_paillier::RawPlaintext::from(kzen_paillier::BigInt::from(m));
    let c: kzen_paillier::RawCiphertext = kzen_paillier::Paillier::encrypt(&key, p);
    format!("{}", kzen_paillier::BigInt::from(c)).into_bytes()
}

/// Multiplies the raw ciphertexts `a` and `b` modulo `n^2` under the
/// serialized encryption key `ek` and returns the decimal form of the
/// product.
///
/// Relies on `Paillier::add` (kzen_paillier): the result is
/// `(a * b) mod n^2`, a deterministic and commutative function of the
/// operands, and decrypting it yields the sum of the operands'
/// plaintexts modulo `n` (the scheme's additive homomorphism).
#[verifier::external_body]
pub(crate) fn add_bytes(ek: &Vec<u8>, a: &Vec<u8>, b: &Vec<u8>) -> (r: Vec<u8>)
    requires
        ek_sound(ek@),
        cipher_sound(ek_modulus(ek@), a@),
        cipher_sound(ek_modulus(ek@), b@),
    ensures
        r@ == sum_bytes(ek@, a@, b@),
        r@ == sum_bytes(ek@, b@, a@),
        cipher_sound(ek_modulus(ek@), r@),
        cipher_value(ek_modulus(ek@), r@) as int
            == ((cipher_value(ek_modulus(ek@), a@) + cipher_value(ek_modulus(ek@), b@)) as int)
                % (ek_modulus(ek@) as int),
        r@.len() <= RAW_CIPHERTEXT_MAX_SIZE,
{
    let key: kzen_paillier::EncryptionKey = ciborium::de::from_reader(ek.as_slice()).unwrap();
    let ra = kzen_paillier::BigInt::from_str_radix(std::str::from_utf8(a.as_slice()).unwrap(), 10).unwrap();
    let rb = kzen_paillier::BigInt::from_str_radix(std::str::from_utf8(b.as_slice()).unwrap(), 10).unwrap();
    let d: kzen_paillier::RawCiphertext = <kzen_paillier::Paillier as kzen_paillier::Add<_, _, _, _>>::add(
        &key,
        kzen_paillier::RawCiphertext::from(&ra),
        kzen_paillier::RawCiphertext::from(&rb),
    );
    format!("{}", kzen_paillier::BigInt::from(d)).into_bytes()
}

/// Decrypts the raw ciphertext `c` under the serialized decryption key
/// `dk`, returning the plaintext if it fits the 64-bit domain.
///
/// Relies on `Paillier::decrypt` (kzen_paillier): decryption is
/// deterministic and recovers the plaintext residue below the modulus;
/// and on the backend's checked conversion to `u64`, which fails exactly
/// when that residue exceeds `u64::MAX`.
#[verifier::external_body]
pub(crate) fn decrypt_bytes(dk: &Vec<u8>, c: &Vec<u8>) -> (r: Result<u64, CryptoError>)
    requires
        dk_sound(dk@),
        cipher_sound(dk_modulus(dk@), c@),
    ensures
        r is Ok <==> cipher_value(dk_modulus(dk@), c@) <= u64::MAX as nat,
        r is Ok ==> r->Ok_0 as nat == cipher_value(dk_modulus(dk@), c@),
        r is Err ==> r->Err_0 == CryptoError::DecodeOverflow,
{
    let key: kzen_paillier::DecryptionKey = ciborium::de::from_reader(dk.as_slice()).unwrap();
    let raw = kzen_paillier::BigInt::from_str_radix(std::str::from_utf8(c.as_slice()).unwrap(), 10).unwrap();
    let m: kzen_paillier::RawPlaintext = kzen_paillier::Paillier::decrypt(&key, kzen_paillier::RawCiphertext::from(&raw));
    match u64::try_from(&kzen_paillier::BigInt::from(m)) {
        Ok(v) => Ok(v),
        Err(_) => Err(CryptoError::DecodeOverflow),
    }
}

/// Reports whether `ek` deserializes as an encryption key.
///
/// Relies on `ciborium::de::from_reader`, which returns an error on
/// malformed input instead of panicking.
#[verifier::external_body]
pub(crate) fn check_ek_parses(ek: &Vec<u8>) -> (r: bool)
    ensures
        r == ek_parses(ek@),
{
    let parsed: Result<kzen_paillier::EncryptionKey, _> = ciborium::de::from_reader(ek.as_slice());
    match parsed {
        Ok(_) => true,
        Err(_) => false,
    }
}

/// Reports whether `dk` deserializes as a decryption key.
///
/// Relies on `ciborium::de::from_reader`, which returns an error on
/// malformed input instead of panicking.
#[verifier::external_body]
pub(crate) fn check_dk_parses(dk: &Vec<u8>) -> (r: bool)
    ensures
        r == dk_parses(dk@),
{
    let parsed: Result<kzen_paillier::DecryptionKey, _> = ciborium::de::from_reader(dk.as_slice());
    match parsed {
        Ok(_) => true,
        Err(_) => false,
    }
}

} // verus!
