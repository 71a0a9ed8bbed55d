//! The wire codec: byte forms of keys and ciphertexts with published
//! maximum sizes and a lossless round trip.
//!
//! A public key travels as its backend serialization unchanged. A
//! private key travels as a 4-byte little-endian length, the
//! decryption-key core, then the public counterpart. A ciphertext
//! travels as a 4-byte little-endian key length, the key it was
//! produced under, its one-byte encoding tag, then the decimal payload.

use vstd::prelude::*;

use crate::backend;
use crate::errors::CryptoError;
use crate::keys::{clone_bytes, private_key_from_parts, public_key_from_bytes, PrivateKey,
    PublicKey};
use crate::paillier::{ciphertext_from_parts, Ciphertext, U64_SCALAR_ENCODING};

verus! {

/// Maximum serialized size of a public (encryption) key, in bytes.
pub const ENCRYPTION_KEY_MAX_SIZE: usize = backend::ENCRYPTION_KEY_MAX_SIZE;

/// Maximum serialized size of a private (decryption) key, in bytes:
/// the length prefix, the decryption-key core, and the embedded public
/// counterpart.
pub const DECRYPTION_KEY_MAX_SIZE: usize = 4 + backend::DECRYPTION_KEY_CORE_MAX_SIZE
    + backend::ENCRYPTION_KEY_MAX_SIZE;

/// Maximum serialized size of a ciphertext, in bytes: the length
/// prefix, the key identity, the encoding tag, and the decimal payload.
pub const CIPHERTEXT_MAX_SIZE: usize = 4 + backend::ENCRYPTION_KEY_MAX_SIZE + 1
    + backend::RAW_CIPHERTEXT_MAX_SIZE;

/// Publishes the public-key size bound for fixed-capacity callers.
pub fn paillier_encryption_key_max_size() -> (r: usize)
    ensures
        r == ENCRYPTION_KEY_MAX_SIZE,
{
    ENCRYPTION_KEY_MAX_SIZE
}

/// Publishes the private-key size bound for fixed-capacity callers.
pub fn paillier_decryption_key_max_size() -> (r: usize)
    ensures
        r == DECRYPTION_KEY_MAX_SIZE,
{
    DECRYPTION_KEY_MAX_SIZE
}

/// Publishes the ciphertext size bound for fixed-capacity callers.
pub fn paillier_u64_ciphertext_max_size() -> (r: usize)
    ensures
        r == CIPHERTEXT_MAX_SIZE,
{
    CIPHERTEXT_MAX_SIZE
}

/// The 4-byte little-endian form of a length below `2^32`.
pub open spec fn spec_len4(n: nat) -> Seq<u8> {
    seq![
        (n % 256) as u8,
        ((n / 256) % 256) as u8,
        ((n / 65536) % 256) as u8,
        ((n / 16777216) % 256) as u8,
    ]
}

/// The length read back from the first four bytes.
pub open spec fn spec_read_len4(b: Seq<u8>) -> nat {
    b[0] as nat + 256 * (b[1] as nat) + 65536 * (b[2] as nat) + 16777216 * (b[3] as nat)
}

/// Reading the four length bytes recovers the length.
pub proof fn lemma_len4_round_trip(k: nat, rest: Seq<u8>)
    requires
        k < 4294967296,
    ensures
        (spec_len4(k) + rest).len() == 4 + rest.len(),
        spec_read_len4(spec_len4(k) + rest) == k,
{
    let b = spec_len4(k) + rest;
    assert(b[0] == (k % 256) as u8);
    assert(b[1] == ((k / 256) % 256) as u8);
    assert(b[2] == ((k / 65536) % 256) as u8);
    assert(b[3] == ((k / 16777216) % 256) as u8);
    let q1 = k / 256;
    let q2 = k / 65536;
    let q3 = k / 16777216;
    vstd::arithmetic::div_mod::lemma_fundamental_div_mod(k as int, 256);
    vstd::arithmetic::div_mod::lemma_fundamental_div_mod(q1 as int, 256);
    vstd::arithmetic::div_mod::lemma_fundamental_div_mod(q2 as int, 256);
    assert(q1 as int / 256 == q2 as int) by {
        vstd::arithmetic::div_mod::lemma_div_denominator(k as int, 256, 256);
    }
    assert(q2 as int / 256 == q3 as int) by {
        vstd::arithmetic::div_mod::lemma_div_denominator(k as int, 65536, 256);
    }
    assert(q3 < 256);
    vstd::arithmetic::div_mod::lemma_small_mod(q3, 256);
    assert(spec_read_len4(b) == k % 256 + 256 * (q1 % 256) + 65536 * (q2 % 256) + 16777216 * (q3
        % 256));
}

/// The 4-byte little-endian form of `n`, as executable code.
fn len4_bytes(n: usize) -> (r: Vec<u8>)
    requires
        n < 4294967296,
    ensures
        r@ == spec_len4(n as nat),
{
    let mut v: Vec<u8> = Vec::new();
    v.push((n % 256) as u8);
    v.push(((n / 256) % 256) as u8);
    v.push(((n / 65536) % 256) as u8);
    v.push(((n / 16777216) % 256) as u8);
    proof {
        assert(v@ =~= spec_len4(n as nat));
    }
    v
}

/// Appends the contents of `v` to `out`.
pub(crate) fn append_bytes(out: &mut Vec<u8>, v: &Vec<u8>)
    ensures
        final(out)@ == old(out)@ + v@,
{
    let mut i: usize = 0;
    while i < v.len()
        invariant
            i <= v.len(),
            out@ == old(out)@ + v@.subrange(0, i as int),
        decreases v.len() - i,
    {
        out.push(v[i]);
        proof {
            assert(out@ =~= old(out)@ + v@.subrange(0, i + 1 as int));
        }
        i = i + 1;
    }
    proof {
        assert(out@ =~= old(out)@ + v@);
    }
}

/// Copies `v[from..to]` into a fresh vector.
fn copy_range(v: &Vec<u8>, from: usize, to: usize) -> (r: Vec<u8>)
    requires
        from <= to <= v@.len(),
    ensures
        r@ == v@.subrange(from as int, to as int),
{
    let mut out: Vec<u8> = Vec::new();
    let mut i: usize = from;
    while i < to
        invariant
            from <= i <= to <= v@.len(),
            out@ == v@.subrange(from as int, i as int),
        decreases to - i,
    {
        out.push(v[i]);
        proof {
            assert(out@ =~= v@.subrange(from as int, i + 1 as int));
        }
        i = i + 1;
    }
    out
}

// ---------------------------------------------------------------------
// Public keys.
// ---------------------------------------------------------------------

/// The wire form of a public key: its serialization unchanged.
pub open spec fn spec_encode_public_key(pk: PublicKey) -> Seq<u8> {
    pk@
}

/// Serializes a public key.
pub fn encode_public_key(pk: &PublicKey) -> (r: Vec<u8>)
    ensures
        r@ == spec_encode_public_key(*pk),
        pk.wf() ==> r@.len() <= ENCRYPTION_KEY_MAX_SIZE,
{
    clone_bytes(pk.bytes())
}

/// Re-admits a serialized public key. Malformed bytes are rejected with
/// `InvalidKeyEncoding`, never coerced.
pub fn decode_public_key(bytes: &Vec<u8>) -> (r: Result<PublicKey, CryptoError>)
    ensures
        r is Ok <==> bytes@.len() <= ENCRYPTION_KEY_MAX_SIZE && backend::ek_parses(bytes@),
        r is Ok ==> (r->Ok_0)@ == bytes@,
        r is Err ==> r->Err_0 == CryptoError::InvalidKeyEncoding,
{
    if bytes.len() > ENCRYPTION_KEY_MAX_SIZE {
        return Err(CryptoError::InvalidKeyEncoding);
    }
    if !backend::check_ek_parses(bytes) {
        return Err(CryptoError::InvalidKeyEncoding);
    }
    Ok(public_key_from_bytes(clone_bytes(bytes)))
}

/// Codec law for public keys: the encoding of a well-formed key fits
/// the published bound and satisfies exactly the conditions under which
/// `decode_public_key` succeeds and returns a key of the same bytes.
pub proof fn lemma_public_key_round_trip(pk: PublicKey)
    requires
        pk.wf(),
    ensures
        spec_encode_public_key(pk).len() <= ENCRYPTION_KEY_MAX_SIZE,
        backend::ek_parses(spec_encode_public_key(pk)),
{
}

// ---------------------------------------------------------------------
// Private keys.
// ---------------------------------------------------------------------

/// The wire form of a private key: length-prefixed decryption-key core,
/// then the public counterpart.
pub open spec fn spec_encode_private_key(sk: PrivateKey) -> Seq<u8> {
    spec_len4(sk.dk_view().len()) + sk.dk_view() + sk.pk_view()
}

/// Splitting of a length-prefixed wire form into its two parts.
pub open spec fn spec_split_frame(bytes: Seq<u8>) -> Option<(Seq<u8>, Seq<u8>)> {
    if bytes.len() < 4 {
        None
    } else {
        let k = spec_read_len4(bytes);
        if bytes.len() < 4 + k {
            None
        } else {
            Some((bytes.subrange(4, 4 + k as int), bytes.subrange(4 + k as int, bytes.len() as int)))
        }
    }
}

/// Serializes a private key.
pub fn encode_private_key(sk: &PrivateKey) -> (r: Vec<u8>)
    requires
        sk.dk_view().len() < 4294967296,
    ensures
        r@ == spec_encode_private_key(*sk),
        sk.wf() ==> r@.len() <= DECRYPTION_KEY_MAX_SIZE,
{
    let mut out = len4_bytes(sk.dk_ref().len());
    append_bytes(&mut out, sk.dk_ref());
    append_bytes(&mut out, sk.pk_id_ref());
    proof {
        assert(out@ =~= spec_encode_private_key(*sk));
    }
    out
}

/// Re-admits a serialized private key. Malformed bytes are rejected
/// with `InvalidKeyEncoding`, never coerced.
pub fn decode_private_key(bytes: &Vec<u8>) -> (r: Result<PrivateKey, CryptoError>)
    ensures
        r is Ok <==> (spec_split_frame(bytes@) matches Some(parts)
            && parts.0.len() <= backend::DECRYPTION_KEY_CORE_MAX_SIZE
            && parts.1.len() <= backend::ENCRYPTION_KEY_MAX_SIZE && backend::dk_parses(parts.0)
            && backend::ek_parses(parts.1)),
        r is Ok ==> (spec_split_frame(bytes@) matches Some(parts) && (r->Ok_0).dk_view() == parts.0
            && (r->Ok_0).pk_view() == parts.1),
        r is Err ==> r->Err_0 == CryptoError::InvalidKeyEncoding,
{
    if bytes.len() < 4 {
        return Err(CryptoError::InvalidKeyEncoding);
    }
    let k: usize = read_len4(bytes);
    if bytes.len() < 4 || bytes.len() - 4 < k {
        return Err(CryptoError::InvalidKeyEncoding);
    }
    let dk_part = copy_range(bytes, 4, 4 + k);
    let pk_part = copy_range(bytes, 4 + k, bytes.len());
    if dk_part.len() > backend::DECRYPTION_KEY_CORE_MAX_SIZE {
        return Err(CryptoError::InvalidKeyEncoding);
    }
    if pk_part.len() > backend::ENCRYPTION_KEY_MAX_SIZE {
        return Err(CryptoError::InvalidKeyEncoding);
    }
    if !backend::check_dk_parses(&dk_part) {
        return Err(CryptoError::InvalidKeyEncoding);
    }
    if !backend::check_ek_parses(&pk_part) {
        return Err(CryptoError::InvalidKeyEncoding);
    }
    Ok(private_key_from_parts(dk_part, pk_part))
}

/// Reads the 4-byte little-endian length prefix.
fn read_len4(bytes: &Vec<u8>) -> (r: usize)
    requires
        bytes@.len() >= 4,
    ensures
        r as nat == spec_read_len4(bytes@),
        r < 4294967296,
{
    let b0 = bytes[0] as usize;
    let b1 = bytes[1] as usize;
    let b2 = bytes[2] as usize;
    let b3 = bytes[3] as usize;
    b0 + 256 * b1 + 65536 * b2 + 16777216 * b3
}

/// Codec law for private keys: the encoding of a well-formed private
/// key fits the published bound, splits back into exactly its two
/// parts, and satisfies the conditions under which `decode_private_key`
/// succeeds.
pub proof fn lemma_private_key_round_trip(sk: PrivateKey)
    requires
        sk.wf(),
    ensures
        spec_encode_private_key(sk).len() <= DECRYPTION_KEY_MAX_SIZE,
        spec_split_frame(spec_encode_private_key(sk)) == Some((sk.dk_view(), sk.pk_view())),
        backend::dk_parses(sk.dk_view()),
        backend::ek_parses(sk.pk_view()),
{
    let enc = spec_encode_private_key(sk);
    let k = sk.dk_view().len();
    lemma_len4_round_trip(k, sk.dk_view() + sk.pk_view());
    assert(spec_len4(k) + sk.dk_view() + sk.pk_view() =~= spec_len4(k) + (sk.dk_view()
        + sk.pk_view()));
    assert(spec_read_len4(enc) == k);
    assert(enc.subrange(4, 4 + k as int) =~= sk.dk_view());
    assert(enc.subrange(4 + k as int, enc.len() as int) =~= sk.pk_view());
}

// ---------------------------------------------------------------------
// Ciphertexts.
// ---------------------------------------------------------------------

/// The wire form of a ciphertext: length-prefixed key identity, the
/// encoding tag, then the decimal payload.
pub open spec fn spec_encode_ciphertext(c: Ciphertext) -> Seq<u8> {
    spec_len4(c.key_view().len()) + c.key_view() + seq![c.encoding_view()] + c.payload_view()
}

/// Splitting of a ciphertext wire form into key identity, encoding tag
/// and payload.
pub open spec fn spec_split_ciphertext_frame(bytes: Seq<u8>) -> Option<(Seq<u8>, u8, Seq<u8>)> {
    if bytes.len() < 5 {
        None
    } else {
        let k = spec_read_len4(bytes);
        if bytes.len() < 5 + k {
            None
        } else {
            Some(
                (
                    bytes.subrange(4, 4 + k as int),
                    bytes[4 + k as int],
                    bytes.subrange(5 + k as int, bytes.len() as int),
                ),
            )
        }
    }
}

/// Serializes a ciphertext.
pub fn encode_ciphertext(c: &Ciphertext) -> (r: Vec<u8>)
    requires
        c.key_view().len() < 4294967296,
    ensures
        r@ == spec_encode_ciphertext(*c),
        c.wf() ==> r@.len() <= CIPHERTEXT_MAX_SIZE,
{
    let mut out = len4_bytes(c.key_id_ref().len());
    append_bytes(&mut out, c.key_id_ref());
    out.push(c.encoding_tag());
    append_bytes(&mut out, c.payload_ref());
    proof {
        assert(out@ =~= spec_encode_ciphertext(*c));
    }
    out
}

/// Writes the encoding of `c` into the fixed-capacity buffer `out`
/// without changing the buffer's length and reports the written length.
/// An undersized buffer is a definite failure that leaves the buffer
/// unchanged; nothing is truncated silently.
pub fn encode_ciphertext_into(c: &Ciphertext, out: &mut Vec<u8>) -> (r: Option<usize>)
    requires
        c.key_view().len() < 4294967296,
    ensures
        final(out)@.len() == old(out)@.len(),
        r is Some <==> spec_encode_ciphertext(*c).len() <= old(out)@.len(),
        r is Some ==> r->0 == spec_encode_ciphertext(*c).len() && final(out)@
            == spec_encode_ciphertext(*c) + old(out)@.subrange(
            spec_encode_ciphertext(*c).len() as int,
            old(out)@.len() as int,
        ),
        r is None ==> final(out)@ == old(out)@,
{
    let enc = encode_ciphertext(c);
    if enc.len() > out.len() {
        return None;
    }
    let mut filled: Vec<u8> = Vec::new();
    let mut i: usize = 0;
    while i < enc.len()
        invariant
            i <= enc.len(),
            filled@ == enc@.subrange(0, i as int),
        decreases enc.len() - i,
    {
        filled.push(enc[i]);
        proof {
            assert(filled@ =~= enc@.subrange(0, i + 1 as int));
        }
        i = i + 1;
    }
    let mut j: usize = enc.len();
    while j < out.len()
        invariant
            enc.len() <= j <= out.len(),
            out@ == old(out)@,
            filled@ == enc@ + out@.subrange(enc.len() as int, j as int),
        decreases out.len() - j,
    {
        filled.push(out[j]);
        proof {
            assert(filled@ =~= enc@ + out@.subrange(enc.len() as int, j + 1 as int));
        }
        j = j + 1;
    }
    *out = filled;
    Some(enc.len())
}

/// Re-admits a serialized ciphertext. Malformed bytes, an oversized
/// part, or an unsupported encoding tag are rejected with
/// `InvalidCiphertextEncoding`, never coerced.
pub fn decode_ciphertext(bytes: &Vec<u8>) -> (r: Result<Ciphertext, CryptoError>)
    ensures
        r is Ok <==> (spec_split_ciphertext_frame(bytes@) matches Some(parts)
            && parts.0.len() <= backend::ENCRYPTION_KEY_MAX_SIZE && parts.1
            == U64_SCALAR_ENCODING && parts.2.len() <= backend::RAW_CIPHERTEXT_MAX_SIZE),
        r is Ok ==> (spec_split_ciphertext_frame(bytes@) matches Some(parts) && (
        r->Ok_0).key_view() == parts.0 && (r->Ok_0).encoding_view() == parts.1 && (
        r->Ok_0).payload_view() == parts.2),
        r is Err ==> r->Err_0 == CryptoError::InvalidCiphertextEncoding,
{
    if bytes.len() < 5 {
        return Err(CryptoError::InvalidCiphertextEncoding);
    }
    let k: usize = read_len4(bytes);
    if bytes.len() - 5 < k {
        return Err(CryptoError::InvalidCiphertextEncoding);
    }
    let key_part = copy_range(bytes, 4, 4 + k);
    let enc_tag = bytes[4 + k];
    let payload_part = copy_range(bytes, 5 + k, bytes.len());
    if key_part.len() > backend::ENCRYPTION_KEY_MAX_SIZE {
        return Err(CryptoError::InvalidCiphertextEncoding);
    }
    if enc_tag != U64_SCALAR_ENCODING {
        return Err(CryptoError::InvalidCiphertextEncoding);
    }
    if payload_part.len() > backend::RAW_CIPHERTEXT_MAX_SIZE {
        return Err(CryptoError::InvalidCiphertextEncoding);
    }
    Ok(ciphertext_from_parts(key_part, enc_tag, payload_part))
}

/// Codec law for ciphertexts: the encoding of a well-formed ciphertext
/// fits the published bound, splits back into exactly its parts, and
/// satisfies the conditions under which `decode_ciphertext` succeeds.
pub proof fn lemma_ciphertext_round_trip(c: Ciphertext)
    requires
        c.wf(),
    ensures
        spec_encode_ciphertext(c).len() <= CIPHERTEXT_MAX_SIZE,
        spec_split_ciphertext_frame(spec_encode_ciphertext(c)) == Some(
            (c.key_view(), c.encoding_view(), c.payload_view()),
        ),
{
    let enc = spec_encode_ciphertext(c);
    let k = c.key_view().len();
    lemma_len4_round_trip(k, c.key_view() + seq![c.encoding_view()] + c.payload_view());
    assert(spec_len4(k) + c.key_view() + seq![c.encoding_view()] + c.payload_view() =~= spec_len4(k)
        + (c.key_view() + seq![c.encoding_view()] + c.payload_view()));
    assert(spec_read_len4(enc) == k);
    assert(enc.len() == 5 + k + c.payload_view().len());
    assert(enc.subrange(4, 4 + k as int) =~= c.key_view());
    assert(enc[4 + k as int] == c.encoding_view());
    assert(enc.subrange(5 + k as int, enc.len() as int) =~= c.payload_view());
}

// ---------------------------------------------------------------------
// The byte-level operation surface: what a foreign-function or service
// boundary wrapping this core calls, everything passed as plain bytes
// with explicit lengths.
// ---------------------------------------------------------------------

/// Whether `b` is the wire form of a well-formed public key: what
/// `keypair` emits as its first component.
pub open spec fn sound_public_key_bytes(b: Seq<u8>) -> bool {
    &&& backend::ek_sound(b)
    &&& backend::ek_parses(b)
    &&& backend::ek_modulus(b) > u64::MAX as nat
    &&& b.len() <= backend::ENCRYPTION_KEY_MAX_SIZE
}

/// Whether `b` is the wire form of a well-formed private key: what
/// `keypair` emits as its second component.
pub open spec fn sound_private_key_bytes(b: Seq<u8>) -> bool {
    &&& spec_split_frame(b) is Some
    &&& ({
        let p = spec_split_frame(b)->0;
        &&& backend::dk_sound(p.0)
        &&& backend::dk_parses(p.0)
        &&& sound_public_key_bytes(p.1)
        &&& backend::dk_modulus(p.0) == backend::ek_modulus(p.1)
        &&& p.0.len() <= backend::DECRYPTION_KEY_CORE_MAX_SIZE
    })
}

/// Whether `b` is the wire form of a well-formed ciphertext: what the
/// byte-level encryption and addition emit.
pub open spec fn sound_ciphertext_bytes(b: Seq<u8>) -> bool {
    &&& spec_split_ciphertext_frame(b) is Some
    &&& ({
        let p = spec_split_ciphertext_frame(b)->0;
        &&& sound_public_key_bytes(p.0)
        &&& p.1 == U64_SCALAR_ENCODING
        &&& backend::cipher_sound(backend::ek_modulus(p.0), p.2)
        &&& p.2.len() <= backend::RAW_CIPHERTEXT_MAX_SIZE
    })
}

/// The key identity carried by a ciphertext in wire form.
pub open spec fn wire_ciphertext_key(b: Seq<u8>) -> Seq<u8> {
    ({
        let p = spec_split_ciphertext_frame(b)->0;
        p.0
    })
}

/// The plaintext residue carried by a ciphertext in wire form.
pub open spec fn wire_ciphertext_value(b: Seq<u8>) -> nat {
    ({
        let p = spec_split_ciphertext_frame(b)->0;
        backend::cipher_value(backend::ek_modulus(p.0), p.2)
    })
}

/// Encrypts `m` under a public key in wire form and returns the
/// ciphertext in wire form. On the key bytes that `keypair` produces
/// this always succeeds; bytes that do not decode to a key are
/// rejected with `InvalidKeyEncoding`.
pub fn encrypt_u64(ek: &[u8], m: u64) -> (r: Result<Vec<u8>, CryptoError>)
    requires
        sound_public_key_bytes(ek@),
    ensures
        r is Ok,
        (r->Ok_0)@.len() <= CIPHERTEXT_MAX_SIZE,
        sound_ciphertext_bytes((r->Ok_0)@),
        wire_ciphertext_key((r->Ok_0)@) == ek@,
        wire_ciphertext_value((r->Ok_0)@) == m as nat,
{
    let ekv = vstd::slice::slice_to_vec(ek);
    match decode_public_key(&ekv) {
        Ok(pk) => {
            let c = crate::paillier::encrypt(&pk, m);
            proof {
                lemma_ciphertext_round_trip(c);
            }
            Ok(encode_ciphertext(&c))
        },
        Err(e) => {
            proof {
                assert(false);
            }
            Err(e)
        },
    }
}

/// Encrypts `m` under a public key in wire form, writing the wire
/// ciphertext into the fixed-capacity buffer `out` and reporting the
/// written length. A buffer of `CIPHERTEXT_MAX_SIZE` bytes always
/// suffices; an undersized buffer is a definite failure that leaves
/// the buffer unchanged.
pub fn encrypt_u64_to_mut_slice(ek: &[u8], m: u64, out: &mut Vec<u8>) -> (r: Option<usize>)
    requires
        sound_public_key_bytes(ek@),
    ensures
        final(out)@.len() == old(out)@.len(),
        old(out)@.len() >= CIPHERTEXT_MAX_SIZE ==> r is Some,
        r is None ==> final(out)@ == old(out)@,
        r is Some ==> r->0 <= old(out)@.len() && ({
            let prefix = final(out)@.subrange(0, r->0 as int);
            &&& sound_ciphertext_bytes(prefix)
            &&& wire_ciphertext_key(prefix) == ek@
            &&& wire_ciphertext_value(prefix) == m as nat
            &&& final(out)@.subrange(r->0 as int, final(out)@.len() as int) == old(out)@.subrange(
                r->0 as int,
                old(out)@.len() as int,
            )
        }),
{
    let ekv = vstd::slice::slice_to_vec(ek);
    match decode_public_key(&ekv) {
        Ok(pk) => {
            let c = crate::paillier::encrypt(&pk, m);
            proof {
                lemma_ciphertext_round_trip(c);
            }
            let r = encode_ciphertext_into(&c, out);
            proof {
                if r is Some {
                    assert(final(out)@.subrange(0, r->0 as int) =~= spec_encode_ciphertext(c));
                    assert(final(out)@.subrange(r->0 as int, final(out)@.len() as int)
                        =~= old(out)@.subrange(r->0 as int, old(out)@.len() as int));
                }
            }
            r
        },
        Err(_) => {
            proof {
                assert(false);
            }
            None
        },
    }
}

/// Decrypts a wire ciphertext under a private key in wire form:
/// exactly `decrypt` over the decoded values. A ciphertext under a
/// different key fails with `InvalidCiphertext`; a residue beyond the
/// 64-bit domain fails with `DecodeOverflow`.
pub fn decrypt_u64(dk: &[u8], c: &[u8]) -> (r: Result<u64, CryptoError>)
    requires
        sound_private_key_bytes(dk@),
        sound_ciphertext_bytes(c@),
    ensures
        ({
            let key = wire_ciphertext_key(c@);
            let own = spec_split_frame(dk@)->0;
            if key != own.1 {
                r == Err::<u64, CryptoError>(CryptoError::InvalidCiphertext)
            } else if wire_ciphertext_value(c@) > u64::MAX as nat {
                r == Err::<u64, CryptoError>(CryptoError::DecodeOverflow)
            } else {
                r == Ok::<u64, CryptoError>(wire_ciphertext_value(c@) as u64)
            }
        }),
{
    let dkv = vstd::slice::slice_to_vec(dk);
    let cv = vstd::slice::slice_to_vec(c);
    match decode_private_key(&dkv) {
        Ok(sk) => match decode_ciphertext(&cv) {
            Ok(ct) => crate::paillier::decrypt(&sk, &ct),
            Err(e) => {
                proof {
                    assert(false);
                }
                Err(e)
            },
        },
        Err(e) => {
            proof {
                assert(false);
            }
            Err(e)
        },
    }
}

/// Homomorphically adds two wire ciphertexts under a public key in
/// wire form: exactly `paillier_add` over the decoded values. Operands
/// under a different key are rejected with `IncompatibleOperands`.
pub fn paillier_u64_add(ek: &[u8], c1: &[u8], c2: &[u8]) -> (r: Result<Vec<u8>, CryptoError>)
    requires
        sound_public_key_bytes(ek@),
        sound_ciphertext_bytes(c1@),
        sound_ciphertext_bytes(c2@),
    ensures
        r is Ok <==> wire_ciphertext_key(c1@) == ek@ && wire_ciphertext_key(c2@) == ek@,
        r is Err ==> r->Err_0 == CryptoError::IncompatibleOperands,
        r is Ok ==> (r->Ok_0)@.len() <= CIPHERTEXT_MAX_SIZE && sound_ciphertext_bytes((r->Ok_0)@)
            && wire_ciphertext_key((r->Ok_0)@) == ek@ && wire_ciphertext_value((r->Ok_0)@) as int
            == ((wire_ciphertext_value(c1@) + wire_ciphertext_value(c2@)) as int) % (
        backend::ek_modulus(ek@) as int),
{
    let ekv = vstd::slice::slice_to_vec(ek);
    let c1v = vstd::slice::slice_to_vec(c1);
    let c2v = vstd::slice::slice_to_vec(c2);
    match (decode_public_key(&ekv), decode_ciphertext(&c1v), decode_ciphertext(&c2v)) {
        (Ok(pk), Ok(a), Ok(b)) => match crate::paillier::paillier_add(&pk, &a, &b) {
            Ok(sum) => {
                proof {
                    lemma_ciphertext_round_trip(sum);
                }
                Ok(encode_ciphertext(&sum))
            },
            Err(e) => Err(e),
        },
        _ => {
            proof {
                assert(false);
            }
            Err(CryptoError::InvalidCiphertextEncoding)
        },
    }
}

// ---------------------------------------------------------------------
// The byte-level key surface.
// ---------------------------------------------------------------------

/// Generates a key pair and returns both keys in wire form, public key
/// first. The private key embeds the public counterpart, so the two
/// outputs belong together.
pub fn keypair() -> (r: (Vec<u8>, Vec<u8>))
    ensures
        sound_public_key_bytes(r.0@),
        sound_private_key_bytes(r.1@),
        ({
            let p = spec_split_frame(r.1@)->0;
            p.1 == r.0@
        }),
        r.0@.len() <= ENCRYPTION_KEY_MAX_SIZE,
        r.1@.len() <= DECRYPTION_KEY_MAX_SIZE,
{
    let (pk, sk) = crate::keys::generate_keypair();
    let pk_bytes = encode_public_key(&pk);
    let sk_bytes = encode_private_key(&sk);
    proof {
        lemma_private_key_round_trip(sk);
    }
    (pk_bytes, sk_bytes)
}

} // verus!
