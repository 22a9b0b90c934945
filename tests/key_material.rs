use volaris_core::{
    create_random_derived_key, derive_key, generate_random_key, hash_spec_for,
    load_key_from_bytes, CoreError, FormatVersion, HashChoice, HashSpec,
};

#[test]
fn key_size_gate() {
    for n in [0usize, 1, 16, 31, 33, 48, 64] {
        let r = load_key_from_bytes(vec![0xAB; n]);
        assert_eq!(r.err(), Some(CoreError::InvalidKeySize));
    }
    let bytes: Vec<u8> = (0..32).collect();
    let key = load_key_from_bytes(bytes.clone()).unwrap();
    assert_eq!(key.len(), 32);
    assert_eq!(key.into_bytes(), bytes);
}

#[test]
fn random_keys_are_32_fresh_bytes() {
    let a = generate_random_key().into_bytes();
    let b = generate_random_key().into_bytes();
    assert_eq!(a.len(), 32);
    assert_eq!(b.len(), 32);
    assert_ne!(a, b);
}

#[test]
fn hash_parameters_by_version() {
    assert_eq!(hash_spec_for(HashChoice::Argon2id, FormatVersion::V3), Some(HashSpec::Argon2id(3)));
    assert_eq!(hash_spec_for(HashChoice::Argon2id, FormatVersion::V4), None);
    assert_eq!(hash_spec_for(HashChoice::Argon2id, FormatVersion::V5), Some(HashSpec::Argon2id(3)));
    assert_eq!(hash_spec_for(HashChoice::Blake3Balloon, FormatVersion::V3), None);
    assert_eq!(hash_spec_for(HashChoice::Blake3Balloon, FormatVersion::V4), Some(HashSpec::Blake3Balloon(4)));
    assert_eq!(hash_spec_for(HashChoice::Blake3Balloon, FormatVersion::V5), Some(HashSpec::Blake3Balloon(5)));
}

#[test]
fn derive_key_rejects_unknown_parameter_sets() {
    for spec in [
        HashSpec::Argon2id(0),
        HashSpec::Argon2id(4),
        HashSpec::Blake3Balloon(3),
        HashSpec::Blake3Balloon(6),
    ] {
        assert!(!spec.is_valid());
        let r = derive_key(b"pass".to_vec(), [0u8; 16], spec);
        assert_eq!(r.err(), Some(CoreError::UnsupportedAlgorithm));
        assert_eq!(create_random_derived_key(spec).err(), Some(CoreError::UnsupportedAlgorithm));
    }
}

#[test]
fn derivation_is_deterministic() {
    let spec = HashSpec::Argon2id(1);
    let a = derive_key(b"correct horse".to_vec(), [7u8; 16], spec).unwrap();
    let b = derive_key(b"correct horse".to_vec(), [7u8; 16], spec).unwrap();
    let a = a.into_bytes();
    assert_eq!(a.len(), 32);
    assert_eq!(a, b.into_bytes());
}

#[test]
fn derivation_depends_on_salt() {
    let spec = HashSpec::Argon2id(1);
    let a = derive_key(b"correct horse".to_vec(), [7u8; 16], spec).unwrap();
    let b = derive_key(b"correct horse".to_vec(), [8u8; 16], spec).unwrap();
    assert_ne!(a.into_bytes(), b.into_bytes());
}

#[test]
fn derivation_depends_on_passphrase() {
    let spec = HashSpec::Argon2id(1);
    let a = derive_key(b"correct horse".to_vec(), [7u8; 16], spec).unwrap();
    let b = derive_key(b"correct horse!".to_vec(), [7u8; 16], spec).unwrap();
    assert_ne!(a.into_bytes(), b.into_bytes());
}

#[test]
fn created_keys_differ() {
    let spec = HashSpec::Argon2id(1);
    let a = create_random_derived_key(spec).unwrap();
    let b = create_random_derived_key(spec).unwrap();
    assert_ne!(a.into_bytes(), b.into_bytes());
}
