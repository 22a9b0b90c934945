//! A keyfile-based encrypted container library.
//!
//! A key is 32 bytes, either drawn at random or stretched from a secret with a
//! memory-hard hash. A container is a self-describing header followed by
//! authenticated ciphertext chunks. The header codec, the selection of
//! key-derivation parameters and the request logic around the stream ciphers
//! are verified here; the primitives themselves come from `volaris-crypto` and
//! `volaris-tools`.

pub mod commands;
pub mod engine;
pub mod error;
pub mod header;
pub mod keys;

pub use error::CoreError;
pub use header::{
    is_recordable, read_header, write_header, Cipher, ContainerHeader, FormatVersion, HashSpec, HeaderView,
};
pub use keys::{
    create_random_derived_key, derive_key, generate_random_key, hash_spec_for, load_key_from_bytes,
    HashChoice, SecretKey,
};
pub use engine::{decrypt, decrypt_with, encrypt, CHUNK_LEN, TAG_LEN};
pub use commands::{
    create_key, decrypt_with_keyfile, encrypt_with_keyfile, key_file_name, parse_cipher,
    parse_format_version, parse_hash_choice,
};
