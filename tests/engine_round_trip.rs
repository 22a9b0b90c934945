use volaris_core::{
    decrypt, decrypt_with, encrypt, generate_random_key, load_key_from_bytes, read_header,
    is_recordable, Cipher, ContainerHeader, CoreError, FormatVersion, HashSpec, SecretKey,
};

fn key(fill: u8) -> SecretKey {
    load_key_from_bytes(vec![fill; 32]).unwrap()
}

fn sample(n: usize) -> Vec<u8> {
    (0..n).map(|i| (i * 31 % 251) as u8).collect()
}

#[test]
fn random_key_round_trip_10kb() {
    let bytes = generate_random_key().into_bytes();
    let plain = sample(10 * 1024);
    let sealed = encrypt(
        &plain,
        load_key_from_bytes(bytes.clone()).unwrap(),
        HashSpec::Argon2id(1),
        Cipher::XChaCha20Poly1305,
        FormatVersion::V5,
    )
    .unwrap();
    assert_eq!(sealed.len(), 416 + plain.len() + 16);
    let h = read_header(&sealed).unwrap();
    assert_eq!(h.version, FormatVersion::V5);
    assert_eq!(h.cipher, Cipher::XChaCha20Poly1305);
    assert_eq!(h.hashing, HashSpec::Argon2id(1));
    let opened = decrypt(&sealed, load_key_from_bytes(bytes).unwrap()).unwrap();
    assert_eq!(opened, plain);
}

#[test]
fn empty_plaintext_round_trip_aes() {
    let plain: Vec<u8> = Vec::new();
    let sealed = encrypt(
        &plain,
        key(3),
        HashSpec::Argon2id(1),
        Cipher::Aes256Gcm,
        FormatVersion::V5,
    )
    .unwrap();
    assert_eq!(sealed.len(), 416 + 16);
    let h = read_header(&sealed).unwrap();
    assert_eq!(h.version, FormatVersion::V5);
    assert_eq!(h.hashing, HashSpec::Argon2id(1));
    assert_eq!(h.cipher, Cipher::Aes256Gcm);
    assert_eq!(decrypt(&sealed, key(3)).unwrap(), plain);
}

#[test]
fn wrong_key_fails_authentication() {
    let plain = sample(1000);
    let sealed = encrypt(
        &plain,
        key(1),
        HashSpec::Argon2id(1),
        Cipher::Aes256Gcm,
        FormatVersion::V5,
    )
    .unwrap();
    assert_eq!(decrypt(&sealed, key(2)).err(), Some(CoreError::AuthenticationFailed));
}

#[test]
fn truncated_container_fails() {
    let plain = sample(4096);
    let sealed = encrypt(
        &plain,
        key(5),
        HashSpec::Argon2id(1),
        Cipher::XChaCha20Poly1305,
        FormatVersion::V5,
    )
    .unwrap();
    let cut = &sealed[..416 + 2000];
    assert_eq!(decrypt(&cut.to_vec(), key(5)).err(), Some(CoreError::AuthenticationFailed));
    let cut = &sealed[..300];
    assert_eq!(decrypt(&cut.to_vec(), key(5)).err(), Some(CoreError::TruncatedHeader));
}

#[test]
fn flipped_ciphertext_bit_fails_authentication() {
    let plain = sample(2048);
    let sealed = encrypt(
        &plain,
        key(9),
        HashSpec::Argon2id(1),
        Cipher::XChaCha20Poly1305,
        FormatVersion::V5,
    )
    .unwrap();
    let mut bad = sealed.clone();
    bad[416 + 100] ^= 0x08;
    assert_eq!(decrypt(&bad, key(9)).err(), Some(CoreError::AuthenticationFailed));
}

#[test]
fn flipped_header_nonce_bit_fails_authentication() {
    let plain = sample(64);
    let sealed = encrypt(
        &plain,
        key(4),
        HashSpec::Argon2id(1),
        Cipher::Aes256Gcm,
        FormatVersion::V5,
    )
    .unwrap();
    let mut bad = sealed.clone();
    bad[7] ^= 0x01;
    assert_eq!(decrypt(&bad, key(4)).err(), Some(CoreError::AuthenticationFailed));
}

#[test]
fn unsupported_selections_fail_first() {
    let plain = sample(10);
    let cases = [
        (HashSpec::Argon2id(3), FormatVersion::V4, CoreError::UnsupportedAlgorithm),
        (HashSpec::Blake3Balloon(5), FormatVersion::V4, CoreError::UnsupportedAlgorithm),
        (HashSpec::Blake3Balloon(4), FormatVersion::V3, CoreError::UnsupportedAlgorithm),
        (HashSpec::Argon2id(1), FormatVersion::V3, CoreError::UnsupportedAlgorithm),
        (HashSpec::Argon2id(9), FormatVersion::V5, CoreError::UnsupportedAlgorithm),
        (HashSpec::Blake3Balloon(6), FormatVersion::V5, CoreError::UnsupportedAlgorithm),
    ];
    for (hashing, version, expected) in cases {
        assert!(!is_recordable(hashing, version));
        let r = encrypt(&plain, key(1), hashing, Cipher::Aes256Gcm, version);
        assert_eq!(r.err(), Some(expected));
    }
}

#[test]
fn header_error_comes_before_the_key() {
    let mut bytes = vec![0xDE, 0x07];
    bytes.resize(600, 0);
    assert_eq!(decrypt(&bytes, key(1)).err(), Some(CoreError::UnsupportedVersion));
    assert_eq!(decrypt(&vec![0xDE], key(1)).err(), Some(CoreError::TruncatedHeader));
}

#[test]
fn inspection_callback_can_refuse() {
    let mut bytes = vec![
        222, 5, 14, 1, 12, 1, 173, 240, 60, 45, 230, 243, 58, 160, 69, 50, 217, 192, 66, 223,
        124, 190, 148, 91, 92, 129, 0, 0, 0, 0, 0, 0, 223, 181,
    ];
    bytes.resize(416 + 16, 0);
    let r = decrypt_with(&bytes, key(1), |h: &ContainerHeader| h.version == FormatVersion::V4);
    assert_eq!(r.err(), Some(CoreError::CallbackRejected));
}

#[test]
fn inspection_callback_sees_the_header() {
    let plain = sample(300);
    let sealed = encrypt(
        &plain,
        key(6),
        HashSpec::Argon2id(1),
        Cipher::Aes256Gcm,
        FormatVersion::V5,
    )
    .unwrap();
    let seen = std::cell::Cell::new(false);
    let r = decrypt_with(&sealed, key(6), |h: &ContainerHeader| {
        seen.set(true);
        h.version == FormatVersion::V5 && h.cipher == Cipher::Aes256Gcm
    });
    assert!(seen.get());
    assert_eq!(r.unwrap(), plain);
}

#[test]
fn exactly_one_full_chunk() {
    let plain = sample(1_048_576);
    let sealed = encrypt(
        &plain,
        key(8),
        HashSpec::Argon2id(1),
        Cipher::XChaCha20Poly1305,
        FormatVersion::V5,
    )
    .unwrap();
    // a full chunk and an empty final chunk, each with its tag
    assert_eq!(sealed.len(), 416 + 1_048_576 + 2 * 16);
    assert_eq!(decrypt(&sealed, key(8)).unwrap(), plain);
}
