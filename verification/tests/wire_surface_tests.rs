//! Tests of the byte-level operation surface and of the running-average
//! state with its text codec.

use pghom::avg::{parse_state, IntegerAvgState};
use pghom::errors::CryptoError;
use pghom::wire::{
    decrypt_u64, encrypt_u64, encrypt_u64_to_mut_slice, keypair, paillier_u64_add,
    paillier_u64_ciphertext_max_size,
};

#[test]
fn test_byte_surface_round_trip() {
    let (ek, dk) = keypair();
    let c = encrypt_u64(&ek, 5).unwrap();
    assert_eq!(decrypt_u64(&dk, &c), Ok(5));
}

#[test]
fn test_byte_surface_add_one_and_two() {
    let (ek, dk) = keypair();
    let c1 = encrypt_u64(&ek, 1).unwrap();
    let c2 = encrypt_u64(&ek, 2).unwrap();
    let sum = paillier_u64_add(&ek, &c1, &c2).unwrap();
    assert_eq!(decrypt_u64(&dk, &sum), Ok(3));
}

#[test]
fn test_byte_surface_cross_key_rejection() {
    let (ek_a, _dk_a) = keypair();
    let (ek_b, dk_b) = keypair();
    let ca = encrypt_u64(&ek_a, 5).unwrap();
    let cb = encrypt_u64(&ek_b, 1).unwrap();
    assert_eq!(
        paillier_u64_add(&ek_a, &ca, &cb).unwrap_err(),
        CryptoError::IncompatibleOperands
    );
    assert_eq!(decrypt_u64(&dk_b, &ca), Err(CryptoError::InvalidCiphertext));
}

#[test]
fn test_byte_surface_rejects_malformed_bytes() {
    let (ek, dk) = keypair();
    let garbage = vec![0x41u8, 0x42, 0x43];
    assert_eq!(
        encrypt_u64(&garbage, 1).unwrap_err(),
        CryptoError::InvalidKeyEncoding
    );
    assert_eq!(
        decrypt_u64(&garbage, &encrypt_u64(&ek, 1).unwrap()).unwrap_err(),
        CryptoError::InvalidKeyEncoding
    );
    assert_eq!(
        decrypt_u64(&dk, &garbage).unwrap_err(),
        CryptoError::InvalidCiphertextEncoding
    );
    assert_eq!(
        paillier_u64_add(&ek, &garbage, &garbage).unwrap_err(),
        CryptoError::InvalidCiphertextEncoding
    );
}

#[test]
fn test_encrypt_into_fixed_capacity_buffer() {
    let (ek, dk) = keypair();
    let mut buffer = vec![0u8; paillier_u64_ciphertext_max_size()];
    let written = encrypt_u64_to_mut_slice(&ek, 99, &mut buffer).unwrap();
    assert!(written <= buffer.len());
    assert_eq!(buffer.len(), paillier_u64_ciphertext_max_size());
    let prefix = buffer[..written].to_vec();
    assert_eq!(decrypt_u64(&dk, &prefix), Ok(99));

    let mut tiny = vec![0u8; 3];
    assert!(encrypt_u64_to_mut_slice(&ek, 99, &mut tiny).is_none());
    assert_eq!(tiny, vec![0u8; 3]);
}

#[test]
fn test_avg_state_folds_and_finalizes() {
    let st = IntegerAvgState::default()
        .state(Some(1))
        .state(None)
        .state(Some(3));
    assert_eq!(st.sum, 4);
    assert_eq!(st.n, 2);
    assert_eq!(st.finalize(), 2);
}

#[test]
fn test_avg_render_text_form() {
    let st = IntegerAvgState { sum: -5, n: 3 };
    assert_eq!(st.render(), b"-5,3".to_vec());
    let zero = IntegerAvgState::default();
    assert_eq!(zero.render(), b"0,0".to_vec());
    let big = IntegerAvgState { sum: i32::MIN, n: i32::MAX };
    assert_eq!(big.render(), b"-2147483648,2147483647".to_vec());
}

#[test]
fn test_avg_parse_text_form() {
    assert_eq!(
        parse_state(b"12,4"),
        Some(IntegerAvgState { sum: 12, n: 4 })
    );
    assert_eq!(
        parse_state(b"-7,2"),
        Some(IntegerAvgState { sum: -7, n: 2 })
    );
    // Anything after a second comma is ignored, as in the reference
    // text form.
    assert_eq!(
        parse_state(b"1,2,3"),
        Some(IntegerAvgState { sum: 1, n: 2 })
    );
    assert_eq!(
        parse_state(b"-2147483648,1"),
        Some(IntegerAvgState { sum: i32::MIN, n: 1 })
    );
    assert_eq!(parse_state(b""), None);
    assert_eq!(parse_state(b"5"), None);
    assert_eq!(parse_state(b","), None);
    assert_eq!(parse_state(b"5,"), None);
    assert_eq!(parse_state(b"a,b"), None);
    assert_eq!(parse_state(b"2147483648,1"), None);
    assert_eq!(parse_state(b"99999999999,1"), None);
}

#[test]
fn test_avg_text_round_trip() {
    for st in [
        IntegerAvgState { sum: 0, n: 0 },
        IntegerAvgState { sum: 17, n: 5 },
        IntegerAvgState { sum: -123, n: 99 },
        IntegerAvgState { sum: i32::MAX, n: 1 },
        IntegerAvgState { sum: i32::MIN, n: i32::MAX },
    ] {
        assert_eq!(parse_state(&st.render()), Some(st));
    }
}
