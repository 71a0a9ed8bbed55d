//! The cryptosystem: probabilistic encryption, deterministic decryption,
//! and the homomorphic addition that lets parties without the private
//! key combine ciphertexts.

use vstd::prelude::*;

use crate::backend;
use crate::errors::CryptoError;
use crate::keys::{bytes_eq, clone_bytes, PrivateKey, PublicKey};

verus! {

/// Encoding tag of a ciphertext that carries a single 64-bit value; the
/// only encoding this core produces. Homomorphic addition is defined
/// only between ciphertexts of one encoding.
pub const U64_SCALAR_ENCODING: u8 = 1;

/// A raw ciphertext paired with the metadata needed for safe
/// homomorphic use: the serialized key it was produced under (so that
/// operands under different keys are rejected, not silently combined)
/// and its encoding tag.
#[derive(Debug)]
pub struct Ciphertext {
    pub(crate) key_id: Vec<u8>,
    pub(crate) encoding: u8,
    pub(crate) payload: Vec<u8>,
}

impl Ciphertext {
    /// The serialized key this ciphertext was produced under.
    pub closed spec fn key_view(self) -> Seq<u8> {
        self.key_id@
    }

    /// The encoding tag.
    pub closed spec fn encoding_view(self) -> u8 {
        self.encoding
    }

    /// The decimal form of the raw ciphertext value.
    pub closed spec fn payload_view(self) -> Seq<u8> {
        self.payload@
    }

    /// Whether this ciphertext was produced under `pk`.
    pub open spec fn under(self, pk: PublicKey) -> bool {
        self.key_view() == pk@
    }

    /// The plaintext residue this ciphertext decrypts to under the key
    /// that produced it.
    pub open spec fn value(self) -> nat {
        backend::cipher_value(backend::ek_modulus(self.key_view()), self.payload_view())
    }

    /// Well-formedness: genuine ciphertext bytes under a genuine key,
    /// in the one supported encoding, within the published size bounds.
    pub open spec fn wf(self) -> bool {
        &&& backend::ek_sound(self.key_view())
        &&& backend::ek_parses(self.key_view())
        &&& backend::ek_modulus(self.key_view()) > u64::MAX as nat
        &&& self.key_view().len() <= backend::ENCRYPTION_KEY_MAX_SIZE
        &&& backend::cipher_sound(backend::ek_modulus(self.key_view()), self.payload_view())
        &&& self.payload_view().len() <= backend::RAW_CIPHERTEXT_MAX_SIZE
        &&& self.encoding_view() == U64_SCALAR_ENCODING
    }

    /// The serialized key this ciphertext was produced under.
    pub fn key_id_ref(&self) -> (r: &Vec<u8>)
        ensures
            r@ == self.key_view(),
    {
        &self.key_id
    }

    /// The encoding tag.
    pub fn encoding_tag(&self) -> (r: u8)
        ensures
            r == self.encoding_view(),
    {
        self.encoding
    }

    /// The decimal form of the raw ciphertext value.
    pub fn payload_ref(&self) -> (r: &Vec<u8>)
        ensures
            r@ == self.payload_view(),
    {
        &self.payload
    }

    /// An independent copy of this ciphertext.
    pub fn duplicate(&self) -> (r: Ciphertext)
        ensures
            r.key_view() == self.key_view(),
            r.encoding_view() == self.encoding_view(),
            r.payload_view() == self.payload_view(),
            r.wf() == self.wf(),
            r.value() == self.value(),
    {
        Ciphertext {
            key_id: clone_bytes(&self.key_id),
            encoding: self.encoding,
            payload: clone_bytes(&self.payload),
        }
    }
}

/// Assembles a ciphertext from its parts; used by the wire codec when
/// it re-admits an encoded ciphertext.
pub(crate) fn ciphertext_from_parts(key_id: Vec<u8>, encoding: u8, payload: Vec<u8>) -> (r:
    Ciphertext)
    ensures
        r.key_view() == key_id@,
        r.encoding_view() == encoding,
        r.payload_view() == payload@,
{
    Ciphertext { key_id, encoding, payload }
}

/// Encrypts `m` under `pk`.
///
/// Probabilistic: a fresh blinding factor is consumed from the secure
/// random source on every call, so two encryptions of the same
/// plaintext differ with overwhelming probability; only the carried
/// plaintext residue is promised.
pub fn encrypt(pk: &PublicKey, m: u64) -> (r: Ciphertext)
    requires
        pk.wf(),
    ensures
        r.wf(),
        r.under(*pk),
        r.value() == m as nat,
{
    let payload = backend::encrypt_bytes(pk.bytes(), m);
    Ciphertext { key_id: clone_bytes(pk.bytes()), encoding: U64_SCALAR_ENCODING, payload }
}

/// What `decrypt` returns, as a function of the private key and the
/// ciphertext: the carried residue when the ciphertext is under this
/// key's public counterpart and the residue fits the 64-bit domain;
/// otherwise the exact error kind.
pub open spec fn spec_decrypt(sk: PrivateKey, c: Ciphertext) -> Result<u64, CryptoError> {
    if c.key_view() != sk.pk_view() {
        Err(CryptoError::InvalidCiphertext)
    } else if c.value() > u64::MAX as nat {
        Err(CryptoError::DecodeOverflow)
    } else {
        Ok(c.value() as u64)
    }
}

/// Decrypts `c` under `sk`. Deterministic.
///
/// A ciphertext produced under any other key is rejected with
/// `InvalidCiphertext` (a corruption or tamper signal); a residue
/// beyond the 64-bit domain — an accumulated sum that left the safe
/// domain — is rejected with `DecodeOverflow`.
pub fn decrypt(sk: &PrivateKey, c: &Ciphertext) -> (r: Result<u64, CryptoError>)
    requires
        sk.wf(),
        c.wf(),
    ensures
        r == spec_decrypt(*sk, *c),
{
    if !bytes_eq(&c.key_id, sk.pk_id_ref()) {
        return Err(CryptoError::InvalidCiphertext);
    }
    backend::decrypt_bytes(sk.dk_ref(), &c.payload)
}

/// Homomorphically adds two ciphertexts under `pk`: the product of the
/// raw values modulo `n^2` carries the sum of the plaintexts modulo `n`.
///
/// The result is stated in both operand orders, so the operation is
/// commutative down to the bytes. Operands under a different key are
/// rejected with `IncompatibleOperands` and nothing is produced.
pub fn paillier_add(pk: &PublicKey, a: &Ciphertext, b: &Ciphertext) -> (r: Result<
    Ciphertext,
    CryptoError,
>)
    requires
        pk.wf(),
        a.wf(),
        b.wf(),
    ensures
        r is Ok <==> a.under(*pk) && b.under(*pk),
        r is Err ==> r->Err_0 == CryptoError::IncompatibleOperands,
        r is Ok ==> (r->Ok_0).wf() && (r->Ok_0).under(*pk),
        r is Ok ==> (r->Ok_0).payload_view() == backend::sum_bytes(
            pk@,
            a.payload_view(),
            b.payload_view(),
        ),
        r is Ok ==> (r->Ok_0).payload_view() == backend::sum_bytes(
            pk@,
            b.payload_view(),
            a.payload_view(),
        ),
        r is Ok ==> (r->Ok_0).value() as int == ((a.value() + b.value()) as int) % (
        pk.modulus() as int),
{
    if !bytes_eq(&a.key_id, pk.bytes()) || !bytes_eq(&b.key_id, pk.bytes()) {
        return Err(CryptoError::IncompatibleOperands);
    }
    let payload = backend::add_bytes(pk.bytes(), &a.payload, &b.payload);
    Ok(Ciphertext { key_id: clone_bytes(pk.bytes()), encoding: U64_SCALAR_ENCODING, payload })
}

/// Round-trip law: a well-formed ciphertext carrying residue `m` under
/// `pk` — which is exactly what `encrypt(pk, m)` produces — decrypts to
/// `m` under the matching private key.
pub proof fn lemma_round_trip(pk: PublicKey, sk: PrivateKey, c: Ciphertext, m: u64)
    requires
        pk.wf(),
        sk.wf(),
        sk.matches(pk),
        c.wf(),
        c.under(pk),
        c.value() == m as nat,
    ensures
        spec_decrypt(sk, c) == Ok::<u64, CryptoError>(m),
{
}

/// Homomorphism law: when the plaintext sum of two ciphertexts under
/// `pk` stays within the 64-bit domain, the ciphertext that
/// `paillier_add` produces for them decrypts to exactly that sum under
/// the matching private key.
pub proof fn lemma_homomorphic_sum(
    pk: PublicKey,
    sk: PrivateKey,
    a: Ciphertext,
    b: Ciphertext,
    c: Ciphertext,
)
    requires
        pk.wf(),
        sk.wf(),
        sk.matches(pk),
        a.wf(),
        b.wf(),
        c.wf(),
        c.under(pk),
        c.value() as int == ((a.value() + b.value()) as int) % (pk.modulus() as int),
        a.value() + b.value() <= u64::MAX as nat,
    ensures
        spec_decrypt(sk, c) == Ok::<u64, CryptoError>((a.value() + b.value()) as u64),
{
    let n = pk.modulus() as int;
    let s = (a.value() + b.value()) as int;
    vstd::arithmetic::div_mod::lemma_small_mod((a.value() + b.value()) as nat, pk.modulus());
    assert(s % n == s);
}

} // verus!
