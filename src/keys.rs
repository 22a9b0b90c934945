use vstd::prelude::*;

use volaris_crypto::header::HashingAlgorithm;
use volaris_crypto::protected::Protected;

use crate::error::CoreError;
use crate::header::{FormatVersion, HashSpec};

verus! {

pub const KEY_LEN: usize = 32;

/// A 32-byte secret key. The bytes are reachable only by consuming the key.
pub struct SecretKey {
    bytes: Vec<u8>,
}

impl View for SecretKey {
    type V = Seq<u8>;

    closed spec fn view(&self) -> Seq<u8> {
        self.bytes@
    }
}

impl SecretKey {
    #[verifier::type_invariant]
    spec fn exact_length(&self) -> bool {
        self.bytes@.len() == KEY_LEN
    }

    /// Gives up the key and hands out its bytes, to be persisted as a keyfile
    /// or handed to a cipher.
    pub fn into_bytes(self) -> (r: Vec<u8>)
        ensures
            r@ == self@,
            r@.len() == KEY_LEN,
    {
        proof {
            use_type_invariant(&self);
        }
        self.bytes
    }

    pub fn len(&self) -> (r: usize)
        ensures
            r == self@.len(),
            r == KEY_LEN,
    {
        proof {
            use_type_invariant(self);
        }
        self.bytes.len()
    }
}

/// The memory-hard hashes that a caller can choose between.
#[derive(Clone, Copy, Debug, PartialEq, Eq, Structural)]
pub enum HashChoice {
    Argon2id,
    Blake3Balloon,
}

/// The parameter set that a hash takes in a container of the given version.
///
/// Argon2id has one set for containers, used in V3 and V5; V4 containers
/// record no hash and always use BLAKE3-Balloon's fourth set, which is also
/// the only hash that V4 admits. BLAKE3-Balloon is not available in V3.
pub open spec fn selected_hash(hash: HashChoice, version: FormatVersion) -> Option<HashSpec> {
    match (hash, version) {
        (HashChoice::Argon2id, FormatVersion::V4) => None,
        (HashChoice::Argon2id, _) => Some(HashSpec::Argon2id(3)),
        (HashChoice::Blake3Balloon, FormatVersion::V3) => None,
        (HashChoice::Blake3Balloon, FormatVersion::V4) => Some(HashSpec::Blake3Balloon(4)),
        (HashChoice::Blake3Balloon, FormatVersion::V5) => Some(HashSpec::Blake3Balloon(5)),
    }
}

pub fn hash_spec_for(hash: HashChoice, version: FormatVersion) -> (r: Option<HashSpec>)
    ensures
        r == selected_hash(hash, version),
        r matches Some(s) ==> s.valid(),
{
    match (hash, version) {
        (HashChoice::Argon2id, FormatVersion::V4) => None,
        (HashChoice::Argon2id, _) => Some(HashSpec::Argon2id(3)),
        (HashChoice::Blake3Balloon, FormatVersion::V3) => None,
        (HashChoice::Blake3Balloon, FormatVersion::V4) => Some(HashSpec::Blake3Balloon(4)),
        (HashChoice::Blake3Balloon, FormatVersion::V5) => Some(HashSpec::Blake3Balloon(5)),
    }
}

/// The key that a memory-hard hash stretches from a passphrase and a salt.
pub uninterp spec fn stretched_key(spec: HashSpec, passphrase: Seq<u8>, salt: Seq<u8>) -> Seq<u8>;

/// Relies on volaris_crypto::primitives::gen_salt: 16 bytes from the thread RNG.
#[verifier::external_body]
pub(crate) fn fresh_salt() -> (r: [u8; 16]) {
    volaris_crypto::primitives::gen_salt()
}

/// Relies on volaris_crypto::primitives::gen_master_key: 32 bytes from the
/// thread RNG.
#[verifier::external_body]
fn random_key_bytes() -> (r: Vec<u8>)
    ensures
        r@.len() == KEY_LEN,
{
    volaris_crypto::primitives::gen_master_key().expose().to_vec()
}

/// Relies on volaris_crypto::header::HashingAlgorithm::hash: Argon2id with
/// parameter sets 1 to 3 or BLAKE3-Balloon with sets 4 and 5, into 32 bytes.
/// With these fixed parameters Argon2id fails only on a passphrase longer
/// than `u32::MAX` bytes, and BLAKE3-Balloon does not fail on a 32-byte output.
#[verifier::external_body]
fn stretch(spec: HashSpec, passphrase: Vec<u8>, salt: &[u8; 16]) -> (r: Result<Vec<u8>, ()>)
    requires
        spec.valid(),
    ensures
        r matches Ok(k) ==> k@ == stretched_key(spec, passphrase@, salt@) && k@.len() == KEY_LEN,
        passphrase@.len() <= u32::MAX ==> r is Ok,
{
    let algorithm = match spec {
        HashSpec::Argon2id(p) => HashingAlgorithm::Argon2id(p as i32),
        HashSpec::Blake3Balloon(p) => HashingAlgorithm::Blake3Balloon(p as i32),
    };
    let key = algorithm.hash(Protected::new(passphrase), salt).map_err(|_| ())?;
    Ok(key.expose().to_vec())
}

/// Accepts `bytes` as a key exactly when there are 32 of them.
pub fn load_key_from_bytes(bytes: Vec<u8>) -> (r: Result<SecretKey, CoreError>)
    ensures
        r is Ok <==> bytes@.len() == KEY_LEN,
        r matches Ok(k) ==> k@ == bytes@,
        r matches Err(e) ==> e == CoreError::InvalidKeySize,
{
    if bytes.len() != KEY_LEN {
        Err(CoreError::InvalidKeySize)
    } else {
        Ok(SecretKey { bytes })
    }
}

/// A key of 32 bytes from a cryptographically secure generator.
pub fn generate_random_key() -> (r: SecretKey)
    ensures
        r@.len() == KEY_LEN,
{
    SecretKey { bytes: random_key_bytes() }
}

/// Stretches `passphrase` with `salt` through the hash and parameter set that
/// `spec` names.
pub fn derive_key(passphrase: Vec<u8>, salt: [u8; 16], spec: HashSpec) -> (r: Result<
    SecretKey,
    CoreError,
>)
    ensures
        !spec.valid() ==> r == Err::<SecretKey, CoreError>(CoreError::UnsupportedAlgorithm),
        spec.valid() && passphrase@.len() <= u32::MAX ==> r is Ok,
        r matches Ok(k) ==> spec.valid() && k@ == stretched_key(spec, passphrase@, salt@),
        r matches Err(e) ==> (e == CoreError::UnsupportedAlgorithm && !spec.valid()) || (e
            == CoreError::KeyDerivationFailed && spec.valid()),
{
    if !spec.is_valid() {
        return Err(CoreError::UnsupportedAlgorithm);
    }
    match stretch(spec, passphrase, &salt) {
        Ok(bytes) => Ok(SecretKey { bytes }),
        Err(_) => Err(CoreError::KeyDerivationFailed),
    }
}

/// Stretching is a function of its inputs: two keys derived from the same
/// passphrase, salt and hash spec are the same key.
pub proof fn lemma_derivation_deterministic(
    a: SecretKey,
    b: SecretKey,
    passphrase: Seq<u8>,
    salt: Seq<u8>,
    spec: HashSpec,
)
    requires
        a@ == stretched_key(spec, passphrase, salt),
        b@ == stretched_key(spec, passphrase, salt),
    ensures
        a@ == b@,
{
}

/// A fresh key stretched from 32 random bytes and a random salt, with the
/// parameter set that `spec` names.
pub fn create_random_derived_key(spec: HashSpec) -> (r: Result<SecretKey, CoreError>)
    ensures
        !spec.valid() ==> r == Err::<SecretKey, CoreError>(CoreError::UnsupportedAlgorithm),
        spec.valid() ==> r is Ok,
        r matches Ok(k) ==> spec.valid() && exists|secret: Seq<u8>, salt: Seq<u8>|
            secret.len() == KEY_LEN && salt.len() == 16 && k@ == stretched_key(
                spec,
                secret,
                salt,
            ),
        r matches Err(e) ==> (e == CoreError::UnsupportedAlgorithm && !spec.valid()) || (e
            == CoreError::KeyDerivationFailed && spec.valid()),
{
    let salt = fresh_salt();
    let secret = random_key_bytes();
    let ghost secret_view = secret@;
    let r = derive_key(secret, salt, spec);
    assert(r matches Ok(k) ==> k@ == stretched_key(spec, secret_view, salt@));
    r
}

} // verus!
