use vstd::prelude::*;
use vstd::string::StringSliceAdditionalSpecFns;

use crate::engine::{decrypt, encrypt, opened, sealed_len};
use crate::error::CoreError;
use crate::header::{header_size, parse_header, Cipher, FormatVersion};
use crate::keys::{
    create_random_derived_key, hash_spec_for, load_key_from_bytes, selected_hash,
    stretched_key, HashChoice, SecretKey, KEY_LEN,
};

verus! {

pub open spec fn argon2id_name() -> Seq<u8> {
    seq![65u8, 114, 103, 111, 110, 50, 73, 68]
}

pub open spec fn balloon_name() -> Seq<u8> {
    seq![66u8, 108, 97, 107, 101, 51, 66, 97, 108, 108, 111, 111, 110]
}

pub open spec fn aes_name() -> Seq<u8> {
    seq![65u8, 69, 83, 45, 50, 53, 54, 45, 71, 67, 77]
}

pub open spec fn xchacha_name() -> Seq<u8> {
    seq![88u8, 67, 104, 97, 67, 104, 97, 50, 48, 80, 111, 108, 121, 49, 51, 48, 53]
}

pub open spec fn key_suffix() -> Seq<u8> {
    seq![46u8, 107, 101, 121]
}

/// `Argon2ID` and `Blake3Balloon`, as the names are spelled at the boundary.
pub open spec fn hash_named(b: Seq<u8>) -> Option<HashChoice> {
    if b == argon2id_name() {
        Some(HashChoice::Argon2id)
    } else if b == balloon_name() {
        Some(HashChoice::Blake3Balloon)
    } else {
        None
    }
}

/// `AES-256-GCM` and `XChaCha20Poly1305`.
pub open spec fn cipher_named(b: Seq<u8>) -> Option<Cipher> {
    if b == aes_name() {
        Some(Cipher::Aes256Gcm)
    } else if b == xchacha_name() {
        Some(Cipher::XChaCha20Poly1305)
    } else {
        None
    }
}

/// `v3`, `v4` and `v5`, with the `v` in either case.
pub open spec fn version_named(b: Seq<u8>) -> Option<FormatVersion> {
    if b.len() != 2 || !(b[0] == 118u8 || b[0] == 86u8) {
        None
    } else if b[1] == 51u8 {
        Some(FormatVersion::V3)
    } else if b[1] == 52u8 {
        Some(FormatVersion::V4)
    } else if b[1] == 53u8 {
        Some(FormatVersion::V5)
    } else {
        None
    }
}

/// A keyfile name ends in `.key`; one that does not gets it appended.
pub open spec fn keyfile_name(b: Seq<u8>) -> Seq<u8> {
    if b.len() >= 4 && b.subrange(b.len() - 4, b.len() as int) == key_suffix() {
        b
    } else {
        b + key_suffix()
    }
}

fn bytes_equal(a: &[u8], b: &[u8]) -> (r: bool)
    ensures
        r == (a@ == b@),
{
    if a.len() != b.len() {
        return false;
    }
    let mut i: usize = 0;
    while i < a.len()
        invariant
            a@.len() == b@.len(),
            i <= a@.len(),
            a@.subrange(0, i as int) == b@.subrange(0, i as int),
        decreases a@.len() - i,
    {
        if a[i] != b[i] {
            assert(a@[i as int] != b@[i as int]);
            return false;
        }
        assert(a@.subrange(0, i + 1) =~= a@.subrange(0, i as int) + seq![a@[i as int]]);
        assert(b@.subrange(0, i + 1) =~= b@.subrange(0, i as int) + seq![b@[i as int]]);
        i = i + 1;
    }
    assert(a@ =~= a@.subrange(0, i as int));
    assert(b@ =~= b@.subrange(0, i as int));
    true
}

pub fn parse_hash_choice(name: &str) -> (r: Option<HashChoice>)
    ensures
        r == hash_named(name.spec_bytes()),
{
    let b = name.as_bytes();
    let argon2id: [u8; 8] = [65, 114, 103, 111, 110, 50, 73, 68];
    let balloon: [u8; 13] = [66, 108, 97, 107, 101, 51, 66, 97, 108, 108, 111, 111, 110];
    assert(argon2id@ =~= argon2id_name());
    assert(balloon@ =~= balloon_name());
    if bytes_equal(b, argon2id.as_slice()) {
        Some(HashChoice::Argon2id)
    } else if bytes_equal(b, balloon.as_slice()) {
        Some(HashChoice::Blake3Balloon)
    } else {
        None
    }
}

pub fn parse_cipher(name: &str) -> (r: Option<Cipher>)
    ensures
        r == cipher_named(name.spec_bytes()),
{
    let b = name.as_bytes();
    let aes: [u8; 11] = [65, 69, 83, 45, 50, 53, 54, 45, 71, 67, 77];
    let xchacha: [u8; 17] = [
        88, 67, 104, 97, 67, 104, 97, 50, 48, 80, 111, 108, 121, 49, 51, 48, 53,
    ];
    assert(aes@ =~= aes_name());
    assert(xchacha@ =~= xchacha_name());
    if bytes_equal(b, aes.as_slice()) {
        Some(Cipher::Aes256Gcm)
    } else if bytes_equal(b, xchacha.as_slice()) {
        Some(Cipher::XChaCha20Poly1305)
    } else {
        None
    }
}

pub fn parse_format_version(name: &str) -> (r: Option<FormatVersion>)
    ensures
        r == version_named(name.spec_bytes()),
{
    let b = name.as_bytes();
    if b.len() != 2 || !(b[0] == 118 || b[0] == 86) {
        None
    } else if b[1] == 51 {
        Some(FormatVersion::V3)
    } else if b[1] == 52 {
        Some(FormatVersion::V4)
    } else if b[1] == 53 {
        Some(FormatVersion::V5)
    } else {
        None
    }
}

/// The file name under which a key named `name` is stored.
pub fn key_file_name(name: &str) -> (r: Vec<u8>)
    requires
        name.spec_bytes().len() + 4 <= usize::MAX,
    ensures
        r@ == keyfile_name(name.spec_bytes()),
{
    let b = name.as_bytes();
    let n = b.len();
    let mut r: Vec<u8> = Vec::new();
    let mut i: usize = 0;
    while i < n
        invariant
            n == b@.len(),
            i <= n,
            r@ == b@.subrange(0, i as int),
        decreases n - i,
    {
        r.push(b[i]);
        i = i + 1;
        assert(b@.subrange(0, i as int) =~= b@.subrange(0, i - 1) + seq![b@[i - 1]]);
    }
    assert(r@ =~= b@);
    if n >= 4 && b[n - 4] == 46 && b[n - 3] == 107 && b[n - 2] == 101 && b[n - 1] == 121 {
        assert(b@.subrange(n - 4, n as int) =~= key_suffix());
        r
    } else {
        if n >= 4 {
            assert(b@.subrange(n - 4, n as int)[0] == b@[n - 4]);
            assert(b@.subrange(n - 4, n as int)[1] == b@[n - 3]);
            assert(b@.subrange(n - 4, n as int)[2] == b@[n - 2]);
            assert(b@.subrange(n - 4, n as int)[3] == b@[n - 1]);
        }
        r.push(46);
        r.push(107);
        r.push(101);
        r.push(121);
        assert(r@ =~= b@ + key_suffix());
        r
    }
}

/// Creates a key from the names a caller gives for the header version and the
/// hash: a random 32-byte secret stretched with a random salt.
pub fn create_key(hash_name: &str, version_name: &str) -> (r: Result<SecretKey, CoreError>)
    ensures
        version_named(version_name.spec_bytes()) is None ==> r == Err::<SecretKey, CoreError>(
            CoreError::UnsupportedVersion,
        ),
        version_named(version_name.spec_bytes()) matches Some(v) ==> {
            &&& hash_named(hash_name.spec_bytes()) is None ==> r == Err::<SecretKey, CoreError>(
                CoreError::UnsupportedAlgorithm,
            )
            &&& hash_named(hash_name.spec_bytes()) matches Some(c) ==> {
                &&& selected_hash(c, v) is None ==> r == Err::<SecretKey, CoreError>(
                    CoreError::UnsupportedAlgorithm,
                )
                &&& selected_hash(c, v) matches Some(s) ==> {
                    &&& r matches Ok(k) ==> exists|secret: Seq<u8>, salt: Seq<u8>|
                        secret.len() == KEY_LEN && salt.len() == 16 && k@ == stretched_key(
                            s,
                            secret,
                            salt,
                        )
                    &&& r is Ok
                }
            }
        },
{
    let version = match parse_format_version(version_name) {
        Some(v) => v,
        None => {
            return Err(CoreError::UnsupportedVersion);
        },
    };
    let hash = match parse_hash_choice(hash_name) {
        Some(h) => h,
        None => {
            return Err(CoreError::UnsupportedAlgorithm);
        },
    };
    match hash_spec_for(hash, version) {
        Some(spec) => create_random_derived_key(spec),
        None => Err(CoreError::UnsupportedAlgorithm),
    }
}

/// Encrypts `plain` with the bytes of a keyfile and the names a caller gives
/// for the hash, the cipher and the header version, checked in that order
/// after the key's length.
pub fn encrypt_with_keyfile(
    plain: &Vec<u8>,
    key_bytes: Vec<u8>,
    hash_name: &str,
    cipher_name: &str,
    version_name: &str,
) -> (r: Result<Vec<u8>, CoreError>)
    ensures
        key_bytes@.len() != KEY_LEN ==> r == Err::<Vec<u8>, CoreError>(
            CoreError::InvalidKeySize,
        ),
        key_bytes@.len() == KEY_LEN ==> {
            let hash = hash_named(hash_name.spec_bytes());
            let cipher = cipher_named(cipher_name.spec_bytes());
            let version = version_named(version_name.spec_bytes());
            &&& hash is None ==> r == Err::<Vec<u8>, CoreError>(CoreError::UnsupportedAlgorithm)
            &&& hash is Some && cipher is None ==> r == Err::<Vec<u8>, CoreError>(
                CoreError::UnsupportedAlgorithm,
            )
            &&& hash is Some && cipher is Some && version is None ==> r == Err::<
                Vec<u8>,
                CoreError,
            >(CoreError::UnsupportedVersion)
            &&& hash is Some && cipher is Some && version is Some ==> {
                let s = selected_hash(hash->Some_0, version->Some_0);
                &&& s is None ==> r == Err::<Vec<u8>, CoreError>(CoreError::UnsupportedAlgorithm)
                &&& s is Some ==> r is Ok
                &&& r matches Ok(out) ==> {
                    &&& parse_header(out@) matches Ok(h) && h.version == version->Some_0
                        && h.cipher == cipher->Some_0 && h.hashing == s->Some_0
                    &&& out@.len() == header_size(version->Some_0) + sealed_len(plain@.len())
                    &&& opened(out@, key_bytes@) == Some(plain@)
                }
            }
        },
{
    let key = match load_key_from_bytes(key_bytes) {
        Ok(k) => k,
        Err(e) => {
            return Err(e);
        },
    };
    let hash = match parse_hash_choice(hash_name) {
        Some(h) => h,
        None => {
            return Err(CoreError::UnsupportedAlgorithm);
        },
    };
    let cipher = match parse_cipher(cipher_name) {
        Some(c) => c,
        None => {
            return Err(CoreError::UnsupportedAlgorithm);
        },
    };
    let version = match parse_format_version(version_name) {
        Some(v) => v,
        None => {
            return Err(CoreError::UnsupportedVersion);
        },
    };
    match hash_spec_for(hash, version) {
        Some(hashing) => encrypt(plain, key, hashing, cipher, version),
        None => Err(CoreError::UnsupportedAlgorithm),
    }
}

/// Decrypts a container with the bytes of a keyfile, whose length is checked
/// first.
pub fn decrypt_with_keyfile(container: &Vec<u8>, key_bytes: Vec<u8>) -> (r: Result<
    Vec<u8>,
    CoreError,
>)
    ensures
        key_bytes@.len() != KEY_LEN ==> r == Err::<Vec<u8>, CoreError>(
            CoreError::InvalidKeySize,
        ),
        key_bytes@.len() == KEY_LEN ==> {
            &&& parse_header(container@) matches Err(e) ==> r == Err::<Vec<u8>, CoreError>(e)
            &&& parse_header(container@) matches Ok(v) ==> {
                &&& r matches Err(e) ==> e == CoreError::AuthenticationFailed
                &&& r is Ok <==> opened(container@, key_bytes@) is Some
                &&& r matches Ok(p) ==> opened(container@, key_bytes@) == Some(p@)
                &&& r matches Ok(p) ==> container@.len() == header_size(v.version) + sealed_len(
                    p@.len(),
                )
            }
        },
{
    let key = match load_key_from_bytes(key_bytes) {
        Ok(k) => k,
        Err(e) => {
            return Err(e);
        },
    };
    decrypt(container, key)
}

} // verus!
