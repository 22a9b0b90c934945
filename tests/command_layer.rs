use volaris_core::{
    create_key, decrypt_with_keyfile, encrypt_with_keyfile, key_file_name, parse_cipher,
    parse_format_version, parse_hash_choice, Cipher, CoreError, FormatVersion, HashChoice,
};

#[test]
fn choice_names() {
    assert_eq!(parse_hash_choice("Argon2ID"), Some(HashChoice::Argon2id));
    assert_eq!(parse_hash_choice("Blake3Balloon"), Some(HashChoice::Blake3Balloon));
    assert_eq!(parse_hash_choice("argon2id"), None);
    assert_eq!(parse_hash_choice(""), None);
    assert_eq!(parse_cipher("AES-256-GCM"), Some(Cipher::Aes256Gcm));
    assert_eq!(parse_cipher("XChaCha20Poly1305"), Some(Cipher::XChaCha20Poly1305));
    assert_eq!(parse_cipher("XChaCha20-Poly1305"), None);
    assert_eq!(parse_format_version("v3"), Some(FormatVersion::V3));
    assert_eq!(parse_format_version("V4"), Some(FormatVersion::V4));
    assert_eq!(parse_format_version("v5"), Some(FormatVersion::V5));
    assert_eq!(parse_format_version("v6"), None);
    assert_eq!(parse_format_version("v55"), None);
}

#[test]
fn keyfile_names() {
    assert_eq!(key_file_name("secret"), b"secret.key".to_vec());
    assert_eq!(key_file_name("secret.key"), b"secret.key".to_vec());
    assert_eq!(key_file_name("key"), b"key.key".to_vec());
    assert_eq!(key_file_name(""), b".key".to_vec());
    assert_eq!(key_file_name("a.KEY"), b"a.KEY.key".to_vec());
}

#[test]
fn create_key_rejects_unknown_names() {
    assert_eq!(create_key("Argon2ID", "v9").err(), Some(CoreError::UnsupportedVersion));
    assert_eq!(create_key("scrypt", "v5").err(), Some(CoreError::UnsupportedAlgorithm));
    assert_eq!(create_key("Argon2ID", "v4").err(), Some(CoreError::UnsupportedAlgorithm));
    assert_eq!(create_key("Blake3Balloon", "v3").err(), Some(CoreError::UnsupportedAlgorithm));
}

#[test]
fn keyfile_errors_in_order() {
    let plain = vec![1u8, 2, 3];
    let r = encrypt_with_keyfile(&plain, vec![0; 31], "nope", "nope", "nope");
    assert_eq!(r.err(), Some(CoreError::InvalidKeySize));
    let r = encrypt_with_keyfile(&plain, vec![0; 32], "nope", "nope", "nope");
    assert_eq!(r.err(), Some(CoreError::UnsupportedAlgorithm));
    let r = encrypt_with_keyfile(&plain, vec![0; 32], "Argon2ID", "nope", "nope");
    assert_eq!(r.err(), Some(CoreError::UnsupportedAlgorithm));
    let r = encrypt_with_keyfile(&plain, vec![0; 32], "Argon2ID", "AES-256-GCM", "nope");
    assert_eq!(r.err(), Some(CoreError::UnsupportedVersion));
    let r = encrypt_with_keyfile(&plain, vec![0; 32], "Argon2ID", "AES-256-GCM", "v4");
    assert_eq!(r.err(), Some(CoreError::UnsupportedAlgorithm));
    let r = encrypt_with_keyfile(&plain, vec![0; 32], "Blake3Balloon", "AES-256-GCM", "V3");
    assert_eq!(r.err(), Some(CoreError::UnsupportedAlgorithm));
    let r = decrypt_with_keyfile(&plain, vec![0; 33]);
    assert_eq!(r.err(), Some(CoreError::InvalidKeySize));
    let r = decrypt_with_keyfile(&plain, vec![0; 32]);
    assert_eq!(r.err(), Some(CoreError::UnsupportedVersion));
}
