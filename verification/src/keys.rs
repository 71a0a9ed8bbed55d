//! Key material: the public (encryption) key and the private
//! (decryption) key, immutable once generated.

use vstd::prelude::*;

use crate::backend;

verus! {

/// The public key: the backend's serialized encryption key, whose
/// modulus is the product of two large primes. Immutable; safe to share
/// with every party that should encrypt or aggregate.
#[derive(Debug)]
pub struct PublicKey {
    pub(crate) bytes: Vec<u8>,
}

impl View for PublicKey {
    type V = Seq<u8>;

    /// The serialized form; it also serves as the identity by which
    /// ciphertexts are matched to the key that produced them.
    closed spec fn view(&self) -> Seq<u8> {
        self.bytes@
    }
}

impl PublicKey {
    /// Well-formedness: genuine key material of the generated kind, with
    /// a modulus large enough that every 64-bit plaintext lies below it.
    pub open spec fn wf(self) -> bool {
        &&& backend::ek_sound(self@)
        &&& backend::ek_parses(self@)
        &&& backend::ek_modulus(self@) > u64::MAX as nat
        &&& self@.len() <= backend::ENCRYPTION_KEY_MAX_SIZE
    }

    /// The modulus `n` that defines the plaintext ring of this key.
    pub open spec fn modulus(self) -> nat {
        backend::ek_modulus(self@)
    }

    /// The serialized form of the key.
    pub fn bytes(&self) -> (r: &Vec<u8>)
        ensures
            r@ == self@,
    {
        &self.bytes
    }
}

/// The private key: the backend's serialized decryption key (the two
/// primes), together with the serialized public counterpart, which acts
/// as the identity that ciphertexts are checked against at decryption.
#[derive(Debug)]
pub struct PrivateKey {
    pub(crate) dk_bytes: Vec<u8>,
    pub(crate) pk_bytes: Vec<u8>,
}

impl PrivateKey {
    /// The serialized decryption-key core.
    pub closed spec fn dk_view(self) -> Seq<u8> {
        self.dk_bytes@
    }

    /// The serialized public counterpart.
    pub closed spec fn pk_view(self) -> Seq<u8> {
        self.pk_bytes@
    }

    /// The modulus shared with the public counterpart.
    pub open spec fn modulus(self) -> nat {
        backend::dk_modulus(self.dk_view())
    }

    /// Well-formedness: genuine decryption-key material whose modulus is
    /// the one of the embedded public counterpart.
    pub open spec fn wf(self) -> bool {
        &&& backend::dk_sound(self.dk_view())
        &&& backend::dk_parses(self.dk_view())
        &&& backend::ek_sound(self.pk_view())
        &&& backend::ek_parses(self.pk_view())
        &&& backend::dk_modulus(self.dk_view()) == backend::ek_modulus(self.pk_view())
        &&& backend::ek_modulus(self.pk_view()) > u64::MAX as nat
        &&& self.dk_view().len() <= backend::DECRYPTION_KEY_CORE_MAX_SIZE
        &&& self.pk_view().len() <= backend::ENCRYPTION_KEY_MAX_SIZE
    }

    /// Whether this private key is the counterpart of `pk`.
    pub open spec fn matches(self, pk: PublicKey) -> bool {
        self.pk_view() == pk@
    }

    /// The serialized decryption-key core.
    pub fn dk_ref(&self) -> (r: &Vec<u8>)
        ensures
            r@ == self.dk_view(),
    {
        &self.dk_bytes
    }

    /// The serialized public counterpart.
    pub fn pk_id_ref(&self) -> (r: &Vec<u8>)
        ensures
            r@ == self.pk_view(),
    {
        &self.pk_bytes
    }
}

/// Assembles a private key from its serialized parts; used by the wire
/// codec when it re-admits an encoded key.
pub(crate) fn private_key_from_parts(dk_bytes: Vec<u8>, pk_bytes: Vec<u8>) -> (r: PrivateKey)
    ensures
        r.dk_view() == dk_bytes@,
        r.pk_view() == pk_bytes@,
{
    PrivateKey { dk_bytes, pk_bytes }
}

/// Assembles a public key from its serialized form; used by the wire
/// codec when it re-admits an encoded key.
pub(crate) fn public_key_from_bytes(bytes: Vec<u8>) -> (r: PublicKey)
    ensures
        r@ == bytes@,
{
    PublicKey { bytes }
}

/// Produces a fresh key pair. The dominant latency cost of the core: it
/// searches for two large random primes; it is expected to run once per
/// key pair, not per message.
pub fn generate_keypair() -> (r: (PublicKey, PrivateKey))
    ensures
        r.0.wf(),
        r.1.wf(),
        r.1.matches(r.0),
        r.1.modulus() == r.0.modulus(),
{
    let (ek, dk) = backend::keypair_bytes();
    let pk_copy = clone_bytes(&ek);
    let pk = PublicKey { bytes: ek };
    let sk = PrivateKey { dk_bytes: dk, pk_bytes: pk_copy };
    (pk, sk)
}

/// Copies a byte vector.
pub(crate) fn clone_bytes(v: &Vec<u8>) -> (r: Vec<u8>)
    ensures
        r@ == v@,
{
    let mut out: Vec<u8> = Vec::new();
    let mut i: usize = 0;
    while i < v.len()
        invariant
            i <= v.len(),
            out@ == v@.subrange(0, i as int),
        decreases v.len() - i,
    {
        out.push(v[i]);
        i = i + 1;
    }
    proof {
        assert(out@ == v@);
    }
    out
}

/// Compares two byte vectors for equality of contents.
pub(crate) fn bytes_eq(a: &Vec<u8>, b: &Vec<u8>) -> (r: bool)
    ensures
        r == (a@ == b@),
{
    if a.len() != b.len() {
        proof {
            assert(a@.len() != b@.len());
        }
        return false;
    }
    let mut i: usize = 0;
    while i < a.len()
        invariant
            i <= a.len(),
            a@.len() == b@.len(),
            forall|j: int| 0 <= j < i ==> a@[j] == b@[j],
        decreases a.len() - i,
    {
        if a[i] != b[i] {
            return false;
        }
        i = i + 1;
    }
    proof {
        assert(a@ =~= b@);
    }
    true
}

} // verus!
