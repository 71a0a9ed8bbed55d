//! End-to-end tests of the homomorphic core: round trips, the additive
//! law, the accumulator, the codec, and every error kind that an input
//! can produce.

use pghom::accumulator::PaillierU64Sum;
use pghom::errors::CryptoError;
use pghom::keys::generate_keypair;
use pghom::paillier::{decrypt, encrypt, paillier_add};
use pghom::wire::{
    decode_ciphertext, decode_private_key, decode_public_key, encode_ciphertext,
    encode_ciphertext_into, encode_private_key, encode_public_key,
    paillier_decryption_key_max_size, paillier_encryption_key_max_size,
    paillier_u64_ciphertext_max_size,
};

#[test]
fn test_round_trip_small_values() {
    let (pk, sk) = generate_keypair();
    for m in [0u64, 1, 2, 42, 1_000_000_007] {
        let c = encrypt(&pk, m);
        assert_eq!(decrypt(&sk, &c), Ok(m));
    }
}

#[test]
fn test_round_trip_domain_maximum() {
    let (pk, sk) = generate_keypair();
    let c = encrypt(&pk, u64::MAX);
    assert_eq!(decrypt(&sk, &c), Ok(u64::MAX));
}

#[test]
fn test_homomorphic_sum_one_plus_two() {
    let (pk, sk) = generate_keypair();
    let c1 = encrypt(&pk, 1);
    let c2 = encrypt(&pk, 2);
    let sum = paillier_add(&pk, &c1, &c2).unwrap();
    assert_eq!(decrypt(&sk, &sum), Ok(3));
}

#[test]
fn test_aggregate_scenario_expect_six() {
    // A 2048-bit key pair; encrypt 1, 2 and 3; add all three
    // homomorphically; the decrypted result is 6.
    let (pk, sk) = generate_keypair();
    let c1 = encrypt(&pk, 1);
    let c2 = encrypt(&pk, 2);
    let c3 = encrypt(&pk, 3);
    let partial = paillier_add(&pk, &c1, &c2).unwrap();
    let total = paillier_add(&pk, &partial, &c3).unwrap();
    assert_eq!(decrypt(&sk, &total), Ok(6));
}

#[test]
fn test_add_commutes_to_the_byte() {
    let (pk, _sk) = generate_keypair();
    let a = encrypt(&pk, 17);
    let b = encrypt(&pk, 25);
    let ab = paillier_add(&pk, &a, &b).unwrap();
    let ba = paillier_add(&pk, &b, &a).unwrap();
    assert_eq!(ab.payload_ref(), ba.payload_ref());
    assert_eq!(encode_ciphertext(&ab), encode_ciphertext(&ba));
}

#[test]
fn test_accumulator_fold_and_order_independence() {
    let (pk, sk) = generate_keypair();
    let c5 = encrypt(&pk, 5);
    let c7 = encrypt(&pk, 7);
    let c11 = encrypt(&pk, 11);

    let mut acc = PaillierU64Sum::default();
    for c in [&c5, &c7, &c11] {
        acc.accumulate(&pk, c.duplicate()).unwrap();
    }
    let bytes = acc.finalize().unwrap();
    let folded = decode_ciphertext(&bytes).unwrap();
    assert_eq!(decrypt(&sk, &folded), Ok(23));

    let mut acc2 = PaillierU64Sum::default();
    for c in [c11, c5, c7] {
        acc2.accumulate(&pk, c).unwrap();
    }
    let bytes2 = acc2.finalize().unwrap();
    let folded2 = decode_ciphertext(&bytes2).unwrap();
    assert_eq!(decrypt(&sk, &folded2), Ok(23));
}

#[test]
fn test_empty_accumulator_finalizes_to_none() {
    let acc = PaillierU64Sum::default();
    assert!(acc.finalize().is_none());

    let (pk, _sk) = generate_keypair();
    let mut acc = PaillierU64Sum::new();
    acc.accumulate(&pk, encrypt(&pk, 9)).unwrap();
    assert!(acc.finalize().is_some());
    acc.reset();
    assert!(acc.finalize().is_none());
}

#[test]
fn test_probabilistic_distinctness() {
    let (pk, sk) = generate_keypair();
    let c1 = encrypt(&pk, 123);
    let c2 = encrypt(&pk, 123);
    assert_ne!(c1.payload_ref(), c2.payload_ref());
    assert_eq!(decrypt(&sk, &c1), Ok(123));
    assert_eq!(decrypt(&sk, &c2), Ok(123));
}

#[test]
fn test_cross_key_add_is_rejected() {
    // Encrypt 5 and 7 under key A and 1 under key B; addition across
    // the two key pairs fails and never returns a value.
    let (pk_a, _sk_a) = generate_keypair();
    let (pk_b, _sk_b) = generate_keypair();
    let a5 = encrypt(&pk_a, 5);
    let a7 = encrypt(&pk_a, 7);
    let b1 = encrypt(&pk_b, 1);
    assert_eq!(
        paillier_add(&pk_a, &a5, &b1).unwrap_err(),
        CryptoError::IncompatibleOperands
    );
    assert_eq!(
        paillier_add(&pk_b, &a7, &b1).unwrap_err(),
        CryptoError::IncompatibleOperands
    );
}

#[test]
fn test_cross_key_accumulate_is_rejected_and_state_kept() {
    let (pk_a, sk_a) = generate_keypair();
    let (pk_b, _sk_b) = generate_keypair();
    let mut acc = PaillierU64Sum::default();
    acc.accumulate(&pk_a, encrypt(&pk_a, 31)).unwrap();
    let err = acc.accumulate(&pk_a, encrypt(&pk_b, 1)).unwrap_err();
    assert_eq!(err, CryptoError::AccumulatorKeyMismatch);
    let bytes = acc.finalize().unwrap();
    let kept = decode_ciphertext(&bytes).unwrap();
    assert_eq!(decrypt(&sk_a, &kept), Ok(31));
}

#[test]
fn test_decrypt_under_wrong_key_is_invalid_ciphertext() {
    let (pk_a, _sk_a) = generate_keypair();
    let (_pk_b, sk_b) = generate_keypair();
    let c = encrypt(&pk_a, 8);
    assert_eq!(decrypt(&sk_b, &c), Err(CryptoError::InvalidCiphertext));
}

#[test]
fn test_overflowing_sum_is_decode_overflow() {
    let (pk, sk) = generate_keypair();
    let c1 = encrypt(&pk, u64::MAX);
    let c2 = encrypt(&pk, 1);
    let sum = paillier_add(&pk, &c1, &c2).unwrap();
    assert_eq!(decrypt(&sk, &sum), Err(CryptoError::DecodeOverflow));
}

#[test]
fn test_codec_round_trip_keys() {
    let (pk, sk) = generate_keypair();
    let pk_bytes = encode_public_key(&pk);
    let sk_bytes = encode_private_key(&sk);
    assert!(pk_bytes.len() <= paillier_encryption_key_max_size());
    assert!(sk_bytes.len() <= paillier_decryption_key_max_size());

    let pk2 = decode_public_key(&pk_bytes).unwrap();
    let sk2 = decode_private_key(&sk_bytes).unwrap();
    assert_eq!(encode_public_key(&pk2), pk_bytes);
    assert_eq!(encode_private_key(&sk2), sk_bytes);

    // The re-admitted keys behave like the keys they came from.
    let c = encrypt(&pk2, 77);
    assert_eq!(decrypt(&sk2, &c), Ok(77));
}

#[test]
fn test_codec_round_trip_ciphertext() {
    let (pk, sk) = generate_keypair();
    let c = encrypt(&pk, 4096);
    let bytes = encode_ciphertext(&c);
    assert!(bytes.len() <= paillier_u64_ciphertext_max_size());
    let c2 = decode_ciphertext(&bytes).unwrap();
    assert_eq!(encode_ciphertext(&c2), bytes);
    assert_eq!(decrypt(&sk, &c2), Ok(4096));
}

#[test]
fn test_decode_rejects_malformed_input() {
    assert_eq!(
        decode_public_key(&vec![0x00, 0x01, 0x02]).unwrap_err(),
        CryptoError::InvalidKeyEncoding
    );
    let oversized = vec![0u8; paillier_encryption_key_max_size() + 1];
    assert_eq!(
        decode_public_key(&oversized).unwrap_err(),
        CryptoError::InvalidKeyEncoding
    );
    assert_eq!(
        decode_private_key(&vec![0xff, 0xff]).unwrap_err(),
        CryptoError::InvalidKeyEncoding
    );
    assert_eq!(
        decode_ciphertext(&vec![0x01]).unwrap_err(),
        CryptoError::InvalidCiphertextEncoding
    );
    // A frame whose length prefix overruns the buffer.
    assert_eq!(
        decode_ciphertext(&vec![0xff, 0x00, 0x00, 0x00, 0x01, 0x02]).unwrap_err(),
        CryptoError::InvalidCiphertextEncoding
    );
}

#[test]
fn test_decode_rejects_unsupported_encoding_tag() {
    let (pk, _sk) = generate_keypair();
    let c = encrypt(&pk, 3);
    let mut bytes = encode_ciphertext(&c);
    // The encoding tag sits right after the length prefix and the key.
    let key_len = pk.bytes().len();
    bytes[4 + key_len] = 0x7f;
    assert_eq!(
        decode_ciphertext(&bytes).unwrap_err(),
        CryptoError::InvalidCiphertextEncoding
    );
}

#[test]
fn test_encode_into_fixed_buffer() {
    let (pk, _sk) = generate_keypair();
    let c = encrypt(&pk, 55);
    let encoded = encode_ciphertext(&c);

    let mut buffer = vec![0xaa; paillier_u64_ciphertext_max_size()];
    let written = encode_ciphertext_into(&c, &mut buffer).unwrap();
    assert_eq!(written, encoded.len());
    assert_eq!(&buffer[..written], &encoded[..]);
    assert_eq!(buffer.len(), paillier_u64_ciphertext_max_size());
    assert!(buffer[written..].iter().all(|b| *b == 0xaa));

    let mut small = vec![0u8; 8];
    assert!(encode_ciphertext_into(&c, &mut small).is_none());
    assert_eq!(small, vec![0u8; 8]);
}

#[test]
fn test_published_size_bounds_are_positive_and_consistent() {
    assert!(paillier_encryption_key_max_size() > 0);
    assert!(paillier_decryption_key_max_size() > paillier_encryption_key_max_size());
    assert!(paillier_u64_ciphertext_max_size() > paillier_encryption_key_max_size());
}
