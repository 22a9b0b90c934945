use vstd::arithmetic::div_mod::lemma_div_is_ordered;
use vstd::prelude::*;

use std::cell::RefCell;
use std::io::Cursor;

use volaris_crypto::header::{HashingAlgorithm, HeaderType, HeaderVersion};
use volaris_crypto::key::argon2id_hash;
use volaris_crypto::primitives::{gen_nonce, Algorithm, Mode};
use volaris_crypto::protected::Protected;
use volaris_crypto::stream::EncryptionStreams;
use volaris_tools::decrypt::{execute as open_stream, Request as OpenRequest};
use volaris_tools::encrypt::{execute as seal_stream, Request as SealRequest};

use crate::error::CoreError;
use crate::header::{
    copy_range, header_bytes, header_size, header_wf, is_recordable, lemma_header_round_trip,
    parse_header, read_header, recordable, stream_nonce_len, write_header, Cipher,
    ContainerHeader, FormatVersion, HashSpec, HeaderView,
};
use crate::keys::{fresh_salt, SecretKey, KEY_LEN};

verus! {

/// Plaintext bytes per stream chunk; each chunk carries a 16-byte tag.
pub const CHUNK_LEN: usize = 1_048_576;

pub const TAG_LEN: usize = 16;

/// Length of the chunk sequence that seals `n` plaintext bytes: every full
/// chunk and the final, shorter (possibly empty) one carry a tag each.
pub open spec fn sealed_len(n: nat) -> nat {
    (n + TAG_LEN * (n / (CHUNK_LEN as nat) + 1)) as nat
}

/// The plaintext that a container opens to under a keyfile's bytes, or none
/// where the container does not authenticate under them.
pub uninterp spec fn opened(container: Seq<u8>, key: Seq<u8>) -> Option<Seq<u8>>;

/// Relies on volaris_tools::encrypt::execute, with a V4 or V5 stream-mode
/// header written at the start of the output: it stretches the key with
/// `hashing` and a fresh salt, wraps a random master key under it, serializes
/// the header with one keyslot and then seals the plaintext in chunks of
/// CHUNK_LEN bytes with a 16-byte tag each. The V3 serializer needs a salt that
/// this call does not give, so V3 goes through `seal_v3`. On in-memory buffers it fails
/// only where stretching fails, which a 32-byte key does not make it do, and
/// volaris_tools::decrypt::execute opens its output with the same key.
#[verifier::external_body]
fn seal_container(
    plain: &Vec<u8>,
    raw_key: Vec<u8>,
    hashing: HashSpec,
    cipher: Cipher,
    version: FormatVersion,
) -> (r: Option<Vec<u8>>)
    requires
        version != FormatVersion::V3,
        hashing.valid(),
        version == FormatVersion::V4 ==> hashing == HashSpec::Blake3Balloon(4),
    ensures
        r matches Some(out) ==> exists|h: HeaderView|
            #![trigger header_bytes(h)]
            header_wf(h) && h.version == version && h.cipher == cipher && h.hashing == hashing
                && out@.len() == header_size(version) + sealed_len(plain@.len())
                && out@.subrange(0, header_size(version) as int) == header_bytes(h),
        raw_key@.len() == KEY_LEN ==> r is Some,
        r matches Some(out) ==> opened(out@, raw_key@) == Some(plain@),
{
    let reader = RefCell::new(Cursor::new(plain.as_slice()));
    let writer = RefCell::new(Cursor::new(Vec::new()));
    let hashing_algorithm = match hashing {
        HashSpec::Argon2id(p) => HashingAlgorithm::Argon2id(p.into()),
        HashSpec::Blake3Balloon(p) => HashingAlgorithm::Blake3Balloon(p.into()),
    };
    let version = match version { FormatVersion::V3 => HeaderVersion::V3, FormatVersion::V4 => HeaderVersion::V4, FormatVersion::V5 => HeaderVersion::V5 };
    let algorithm = match cipher { Cipher::Aes256Gcm => Algorithm::Aes256Gcm, Cipher::XChaCha20Poly1305 => Algorithm::XChaCha20Poly1305 };
    seal_stream(SealRequest { reader: &reader, writer: &writer, header_writer: None, raw_key: Protected::new(raw_key), header_type: HeaderType { version, algorithm, mode: Mode::StreamMode }, hashing_algorithm }).ok()?;
    Some(writer.into_inner().into_inner())
}

/// Relies on volaris_tools::decrypt::execute: it reads the header, unwraps the
/// data key with `raw_key` and opens the chunks that follow, each of at most
/// CHUNK_LEN plaintext bytes and a 16-byte tag; it fails on any chunk that does
/// not authenticate, so a success has opened a chunk sequence as long as
/// `sealed_len` of the plaintext.
#[verifier::external_body]
fn open_container(container: &Vec<u8>, raw_key: Vec<u8>) -> (r: Option<Vec<u8>>)
    requires
        parse_header(container@) is Ok,
    ensures
        r is Some <==> opened(container@, raw_key@) is Some,
        r matches Some(p) ==> opened(container@, raw_key@) == Some(p@),
        r matches Some(p) ==> container@.len() == header_size(
            parse_header(container@)->Ok_0.version,
        ) + sealed_len(p@.len()),
{
    let reader = RefCell::new(Cursor::new(container.as_slice()));
    let writer = RefCell::new(Cursor::new(Vec::new()));
    open_stream(OpenRequest { header_reader: None, reader: &reader, writer: &writer, raw_key: Protected::new(raw_key), on_decrypted_header: None }).ok()?;
    Some(writer.into_inner().into_inner())
}

/// Relies on volaris_crypto::primitives::gen_nonce in stream mode: random
/// bytes, as many as the cipher's nonce less its 4-byte chunk counter.
#[verifier::external_body]
fn fresh_stream_nonce(cipher: Cipher) -> (r: Vec<u8>)
    ensures
        r@.len() == stream_nonce_len(cipher),
{
    let algorithm = match cipher { Cipher::Aes256Gcm => Algorithm::Aes256Gcm, Cipher::XChaCha20Poly1305 => Algorithm::XChaCha20Poly1305 };
    gen_nonce(&algorithm, &Mode::StreamMode)
}

/// Relies on volaris_crypto::key::argon2id_hash with the V3 parameters and on
/// volaris_crypto::stream::EncryptionStreams::encrypt_file: the key is
/// stretched from `raw_key` and the header's salt, and the plaintext is sealed
/// after the header in chunks of CHUNK_LEN bytes with a 16-byte tag each,
/// under the header's nonce and with the whole header as associated data.
/// That is what volaris_tools::decrypt::execute undoes for a V3 header, so it
/// opens the output with the same key. Argon2id fails only on a key longer
/// than `u32::MAX` bytes, and the nonce has the length the stream expects.
#[verifier::external_body]
fn seal_v3(
    plain: &Vec<u8>,
    raw_key: Vec<u8>,
    salt: &[u8; 16],
    header: &Vec<u8>,
    nonce: &Vec<u8>,
    cipher: Cipher,
) -> (r: Option<Vec<u8>>)
    requires
        exists|h: HeaderView|
            #![trigger header_bytes(h)]
            header_wf(h) && h.version == FormatVersion::V3 && h.cipher == cipher && h.salt
                == salt@ && h.nonce == nonce@ && header@ == header_bytes(h),
    ensures
        raw_key@.len() == KEY_LEN ==> r is Some,
        r matches Some(out) ==> out@.len() == header@.len() + sealed_len(plain@.len())
            && out@.subrange(0, header@.len() as int) == header@,
        r matches Some(out) ==> opened(out@, raw_key@) == Some(plain@),
{
    let key = argon2id_hash(Protected::new(raw_key), salt, &HeaderVersion::V3).ok()?;
    let algorithm = match cipher { Cipher::Aes256Gcm => Algorithm::Aes256Gcm, Cipher::XChaCha20Poly1305 => Algorithm::XChaCha20Poly1305 };
    let streams = EncryptionStreams::initialize(key, nonce, &algorithm).ok()?;
    let mut out = header.clone();
    streams.encrypt_file(&mut plain.as_slice(), &mut out, header).ok()?;
    Some(out)
}

/// Writes a V3 container: a fresh salt and nonce, the header, then the chunks.
fn encrypt_v3(plain: &Vec<u8>, key: SecretKey, cipher: Cipher) -> (r: Option<Vec<u8>>)
    ensures
        r is Some,
        r matches Some(out) ==> {
            &&& parse_header(out@) matches Ok(h) && h.version == FormatVersion::V3 && h.cipher
                == cipher && h.hashing == HashSpec::Argon2id(3)
            &&& out@.len() == header_size(FormatVersion::V3) + sealed_len(plain@.len())
            &&& opened(out@, key@) == Some(plain@)
        },
{
    let salt = fresh_salt();
    let nonce = fresh_stream_nonce(cipher);
    let header = ContainerHeader {
        version: FormatVersion::V3,
        hashing: HashSpec::Argon2id(3),
        cipher,
        salt: copy_range(salt.as_slice(), 0, 16),
        nonce,
        wrapped_key: Vec::new(),
        key_nonce: Vec::new(),
    };
    let mut bytes: Vec<u8> = Vec::new();
    write_header(&mut bytes, &header);
    assert(bytes@ =~= header_bytes(header@));
    assert(header@.salt == salt@);
    let ghost key_view = key@;
    let sealed = seal_v3(plain, key.into_bytes(), &salt, &bytes, &header.nonce, cipher);
    match sealed {
        Some(out) => {
            proof {
                let n = bytes@.len() as int;
                let rest = out@.subrange(n, out@.len() as int);
                assert(out@ =~= header_bytes(header@) + rest);
                lemma_header_round_trip(header@, rest);
            }
            Some(out)
        },
        None => None,
    }
}

/// Seals `plain` into a container under `key`, stretched with `hashing`.
///
/// The selections are checked before anything else: a hash that the version
/// cannot record is an unsupported algorithm. Every other selection succeeds,
/// and the container opens under the same key to `plain`.
pub fn encrypt(
    plain: &Vec<u8>,
    key: SecretKey,
    hashing: HashSpec,
    cipher: Cipher,
    version: FormatVersion,
) -> (r: Result<Vec<u8>, CoreError>)
    ensures
        !recordable(hashing, version) ==> r == Err::<Vec<u8>, CoreError>(
            CoreError::UnsupportedAlgorithm,
        ),
        recordable(hashing, version) ==> r is Ok,
        r matches Ok(out) ==> {
            &&& parse_header(out@) matches Ok(h) && h.version == version && h.cipher == cipher
                && h.hashing == hashing
            &&& out@.len() == header_size(version) + sealed_len(plain@.len())
            &&& opened(out@, key@) == Some(plain@)
        },
{
    if !is_recordable(hashing, version) {
        return Err(CoreError::UnsupportedAlgorithm);
    }
    if version == FormatVersion::V3 {
        return match encrypt_v3(plain, key, cipher) {
            Some(out) => Ok(out),
            None => Err(CoreError::IoError),
        };
    }
    let ghost key_view = key@;
    match seal_container(plain, key.into_bytes(), hashing, cipher, version) {
        Some(out) => {
            proof {
                let h = choose|h: HeaderView|
                    #![trigger header_bytes(h)]
                    header_wf(h) && h.version == version && h.cipher == cipher && h.hashing
                        == hashing && out@.len() == header_size(version) + sealed_len(
                        plain@.len(),
                    ) && out@.subrange(0, header_size(version) as int) == header_bytes(h);
                let n = header_size(version) as int;
                let rest = out@.subrange(n, out@.len() as int);
                assert(out@ =~= header_bytes(h) + rest);
                lemma_header_round_trip(h, rest);
            }
            Ok(out)
        },
        None => Err(CoreError::IoError),
    }
}

/// Opens a container with `key`, after `approve` has seen its header.
///
/// The header is read first and its error, if any, is returned before the key
/// or the payload is touched. A header that `approve` refuses ends the call.
/// Any failure after that is a failure to authenticate.
pub fn decrypt_with<F: Fn(&ContainerHeader) -> bool>(
    container: &Vec<u8>,
    key: SecretKey,
    approve: F,
) -> (r: Result<Vec<u8>, CoreError>)
    requires
        forall|h: &ContainerHeader| approve.requires((h,)),
    ensures
        parse_header(container@) matches Err(e) ==> r == Err::<Vec<u8>, CoreError>(e),
        parse_header(container@) matches Ok(v) ==> {
            &&& r matches Err(e) ==> e == CoreError::CallbackRejected || e
                == CoreError::AuthenticationFailed
            &&& r == Err::<Vec<u8>, CoreError>(CoreError::CallbackRejected) ==> exists|
                h: ContainerHeader,
            |
                #![trigger approve.ensures((&h,), false)]
                h@ == v && approve.ensures((&h,), false)
            &&& r != Err::<Vec<u8>, CoreError>(CoreError::CallbackRejected) ==> exists|
                h: ContainerHeader,
            |
                #![trigger approve.ensures((&h,), true)]
                h@ == v && approve.ensures((&h,), true)
            &&& r matches Ok(p) ==> container@.len() == header_size(v.version) + sealed_len(
                p@.len(),
            )
            &&& r != Err::<Vec<u8>, CoreError>(CoreError::CallbackRejected) ==> {
                &&& r is Ok <==> opened(container@, key@) is Some
                &&& r matches Ok(p) ==> opened(container@, key@) == Some(p@)
            }
        },
{
    let header = match read_header(container.as_slice()) {
        Ok(h) => h,
        Err(e) => {
            return Err(e);
        },
    };
    let accepted = approve(&header);
    if !accepted {
        return Err(CoreError::CallbackRejected);
    }
    match open_container(container, key.into_bytes()) {
        Some(p) => Ok(p),
        None => Err(CoreError::AuthenticationFailed),
    }
}

/// Opens a container with `key`, with no inspection of its header.
pub fn decrypt(container: &Vec<u8>, key: SecretKey) -> (r: Result<Vec<u8>, CoreError>)
    ensures
        parse_header(container@) matches Err(e) ==> r == Err::<Vec<u8>, CoreError>(e),
        parse_header(container@) matches Ok(v) ==> {
            &&& r matches Err(e) ==> e == CoreError::AuthenticationFailed
            &&& r is Ok <==> opened(container@, key@) is Some
            &&& r matches Ok(p) ==> opened(container@, key@) == Some(p@)
            &&& r matches Ok(p) ==> container@.len() == header_size(v.version) + sealed_len(
                p@.len(),
            )
        },
{
    decrypt_with(container, key, |h: &ContainerHeader| -> (accepted: bool)
        ensures
            accepted,
        { true })
}

proof fn lemma_sealed_len_strictly_grows(a: nat, b: nat)
    requires
        a < b,
    ensures
        sealed_len(a) < sealed_len(b),
{
    lemma_div_is_ordered(a as int, b as int, CHUNK_LEN as int);
}

/// Opening what `encrypt` sealed gives back as many bytes as were sealed: both
/// engines tie the container's length to the plaintext's through the same
/// chunk framing, and that framing gives distinct lengths to distinct
/// plaintext lengths.
pub proof fn lemma_round_trip_length(container: Seq<u8>, sealed: nat, opened: nat)
    requires
        parse_header(container) is Ok,
        container.len() == header_size(parse_header(container)->Ok_0.version) + sealed_len(
            sealed,
        ),
        container.len() == header_size(parse_header(container)->Ok_0.version) + sealed_len(
            opened,
        ),
    ensures
        sealed == opened,
{
    if sealed < opened {
        lemma_sealed_len_strictly_grows(sealed, opened);
    } else if opened < sealed {
        lemma_sealed_len_strictly_grows(opened, sealed);
    }
}

/// Round trip: `encrypt` returns only containers that open under its key to
/// its plaintext, and a result of `decrypt` with that key on such a container
/// (its header read, its bytes as `decrypt` states them) is exactly that
/// plaintext.
pub proof fn lemma_round_trip(
    container: Seq<u8>,
    key: Seq<u8>,
    plain: Seq<u8>,
    result: Result<Seq<u8>, CoreError>,
)
    requires
        opened(container, key) == Some(plain),
        result is Ok <==> opened(container, key) is Some,
        result matches Ok(p) ==> opened(container, key) == Some(p),
    ensures
        result == Ok::<Seq<u8>, CoreError>(plain),
{
}

} // verus!
