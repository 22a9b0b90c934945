use vstd::prelude::*;

use crate::error::CoreError;

verus! {

/// The container format versions that this library reads.
#[derive(Clone, Copy, Debug, PartialEq, Eq, Structural)]
pub enum FormatVersion {
    V3,
    V4,
    V5,
}

/// The authenticated ciphers that a container may use.
#[derive(Clone, Copy, Debug, PartialEq, Eq, Structural)]
pub enum Cipher {
    Aes256Gcm,
    XChaCha20Poly1305,
}

/// A memory-hard hash together with the version of its cost parameters:
/// Argon2id with parameter sets 1 to 3, BLAKE3-Balloon with sets 4 and 5.
#[derive(Clone, Copy, Debug, PartialEq, Eq, Structural)]
pub enum HashSpec {
    Argon2id(u8),
    Blake3Balloon(u8),
}

impl HashSpec {
    /// The parameter set is one that the hash function knows.
    pub open spec fn valid(self) -> bool {
        match self {
            HashSpec::Argon2id(p) => 1 <= p <= 3,
            HashSpec::Blake3Balloon(p) => 4 <= p <= 5,
        }
    }

    pub fn is_valid(&self) -> (r: bool)
        ensures
            r == self.valid(),
    {
        match *self {
            HashSpec::Argon2id(p) => 1 <= p && p <= 3,
            HashSpec::Blake3Balloon(p) => 4 <= p && p <= 5,
        }
    }
}

/// The mathematical content of a container header.
pub struct HeaderView {
    pub version: FormatVersion,
    pub hashing: HashSpec,
    pub cipher: Cipher,
    pub salt: Seq<u8>,
    pub nonce: Seq<u8>,
    pub wrapped_key: Seq<u8>,
    pub key_nonce: Seq<u8>,
}

/// The header that prefixes every container.
///
/// `nonce` seeds the chunk nonces of the stream cipher. From V4 on the data is
/// sealed under a random master key, which the header holds encrypted
/// (`wrapped_key`, under `key_nonce`) with the key stretched from the keyfile by
/// `hashing` and `salt`. A V3 header has no wrapped key: the stretched key
/// seals the data itself.
pub struct ContainerHeader {
    pub version: FormatVersion,
    pub hashing: HashSpec,
    pub cipher: Cipher,
    pub salt: Vec<u8>,
    pub nonce: Vec<u8>,
    pub wrapped_key: Vec<u8>,
    pub key_nonce: Vec<u8>,
}

impl View for ContainerHeader {
    type V = HeaderView;

    open spec fn view(&self) -> HeaderView {
        HeaderView {
            version: self.version,
            hashing: self.hashing,
            cipher: self.cipher,
            salt: self.salt@,
            nonce: self.nonce@,
            wrapped_key: self.wrapped_key@,
            key_nonce: self.key_nonce@,
        }
    }
}

pub const SALT_LEN: usize = 16;

pub const WRAPPED_KEY_LEN: usize = 48;

/// Length of the stream nonce: the cipher's nonce less the 4-byte chunk counter.
pub open spec fn stream_nonce_len(c: Cipher) -> nat {
    match c {
        Cipher::Aes256Gcm => 8,
        Cipher::XChaCha20Poly1305 => 20,
    }
}

/// Length of the full nonce under which the master key is wrapped.
pub open spec fn key_nonce_len(c: Cipher) -> nat {
    match c {
        Cipher::Aes256Gcm => 12,
        Cipher::XChaCha20Poly1305 => 24,
    }
}

pub open spec fn header_size(v: FormatVersion) -> nat {
    match v {
        FormatVersion::V3 => 64,
        FormatVersion::V4 => 128,
        FormatVersion::V5 => 416,
    }
}

pub open spec fn version_tag(v: FormatVersion) -> u8 {
    match v {
        FormatVersion::V3 => 0x03,
        FormatVersion::V4 => 0x04,
        FormatVersion::V5 => 0x05,
    }
}

pub open spec fn cipher_tag(c: Cipher) -> u8 {
    match c {
        Cipher::XChaCha20Poly1305 => 0x01,
        Cipher::Aes256Gcm => 0x02,
    }
}

/// Second byte of a V5 keyslot identifier; the first is `0xDF`.
pub open spec fn hash_tag(h: HashSpec) -> u8 {
    match h {
        HashSpec::Argon2id(p) => (0xA0 + p) as u8,
        HashSpec::Blake3Balloon(p) => (0xB0 + p) as u8,
    }
}

pub open spec fn version_of_tag(b0: u8, b1: u8) -> Option<FormatVersion> {
    if b0 != 0xDE {
        None
    } else if b1 == 0x03 {
        Some(FormatVersion::V3)
    } else if b1 == 0x04 {
        Some(FormatVersion::V4)
    } else if b1 == 0x05 {
        Some(FormatVersion::V5)
    } else {
        None
    }
}

pub open spec fn cipher_of_tag(b0: u8, b1: u8) -> Option<Cipher> {
    if b0 != 0x0E {
        None
    } else if b1 == 0x01 {
        Some(Cipher::XChaCha20Poly1305)
    } else if b1 == 0x02 {
        Some(Cipher::Aes256Gcm)
    } else {
        None
    }
}

pub open spec fn hash_of_tag(b0: u8, b1: u8) -> Option<HashSpec> {
    if b0 != 0xDF {
        None
    } else if 0xA1 <= b1 <= 0xA3 {
        Some(HashSpec::Argon2id((b1 - 0xA0) as u8))
    } else if 0xB4 <= b1 <= 0xB5 {
        Some(HashSpec::Blake3Balloon((b1 - 0xB0) as u8))
    } else {
        None
    }
}

/// A V5 keyslot at `at` is empty (its identifier does not start with `0xDF`)
/// or names a known hash.
pub open spec fn slot_tag_known(b: Seq<u8>, at: int) -> bool {
    b[at] != 0xDF || hash_of_tag(b[at], b[at + 1]) is Some
}

/// The three keyslots after the first are empty or name known hashes.
pub open spec fn later_slots_known(b: Seq<u8>) -> bool {
    slot_tag_known(b, 128) && slot_tag_known(b, 224) && slot_tag_known(b, 320)
}

/// The stream-mode tag is `0x0C 0x01`; memory mode is not supported.
pub open spec fn is_stream_mode_tag(b0: u8, b1: u8) -> bool {
    b0 == 0x0C && b1 == 0x01
}

pub open spec fn zeros(n: nat) -> Seq<u8> {
    Seq::new(n, |i: int| 0u8)
}

/// The hash is one that a header of this version can record: V3 implies
/// Argon2id's third set and V4 BLAKE3-Balloon's fourth, while a V5 keyslot
/// names any valid set.
pub open spec fn recordable(hashing: HashSpec, version: FormatVersion) -> bool {
    &&& hashing.valid()
    &&& version == FormatVersion::V3 ==> hashing == HashSpec::Argon2id(3)
    &&& version == FormatVersion::V4 ==> hashing == HashSpec::Blake3Balloon(4)
}

pub fn is_recordable(hashing: HashSpec, version: FormatVersion) -> (r: bool)
    ensures
        r == recordable(hashing, version),
{
    hashing.is_valid() && match version {
        FormatVersion::V3 => hashing == HashSpec::Argon2id(3),
        FormatVersion::V4 => hashing == HashSpec::Blake3Balloon(4),
        FormatVersion::V5 => true,
    }
}

/// A header that can be written: every field has the length that its version
/// and cipher fix, and the hash is one that the version can record.
pub open spec fn header_wf(h: HeaderView) -> bool {
    &&& h.hashing.valid()
    &&& h.salt.len() == SALT_LEN
    &&& h.nonce.len() == stream_nonce_len(h.cipher)
    &&& match h.version {
        FormatVersion::V3 => h.hashing == HashSpec::Argon2id(3) && h.wrapped_key.len() == 0
            && h.key_nonce.len() == 0,
        FormatVersion::V4 => h.hashing == HashSpec::Blake3Balloon(4) && h.wrapped_key.len()
            == WRAPPED_KEY_LEN && h.key_nonce.len() == key_nonce_len(h.cipher),
        FormatVersion::V5 => h.wrapped_key.len() == WRAPPED_KEY_LEN && h.key_nonce.len()
            == key_nonce_len(h.cipher),
    }
}

pub open spec fn tag_bytes(h: HeaderView) -> Seq<u8> {
    seq![0xDEu8, version_tag(h.version), 0x0Eu8, cipher_tag(h.cipher), 0x0Cu8, 0x01u8]
}

/// The binary layout of a header.
///
/// V3 (64 bytes): tags, salt, 16 zero bytes, nonce, padding to 64.
/// V4 (128 bytes): tags, salt, nonce, padding to 48, wrapped key, key nonce,
/// padding to 128.
/// V5 (416 bytes): tags, nonce, padding to 32, then four 96-byte keyslots, of
/// which the first holds the identifier, wrapped key, key nonce, padding,
/// salt and padding, and the other three are zero.
pub open spec fn header_bytes(h: HeaderView) -> Seq<u8> {
    let nl = stream_nonce_len(h.cipher);
    let kl = key_nonce_len(h.cipher);
    match h.version {
        FormatVersion::V3 => tag_bytes(h) + h.salt + zeros(16) + h.nonce + zeros(
            (26 - nl) as nat,
        ),
        FormatVersion::V4 => tag_bytes(h) + h.salt + h.nonce + zeros((26 - nl) as nat)
            + h.wrapped_key + h.key_nonce + zeros((32 - kl) as nat),
        FormatVersion::V5 => tag_bytes(h) + h.nonce + zeros((26 - nl) as nat) + seq![
            0xDFu8,
            hash_tag(h.hashing),
        ] + h.wrapped_key + h.key_nonce + zeros((24 - kl) as nat) + h.salt + zeros(6)
            + zeros(288),
    }
}

/// How a byte sequence that starts with a header is read.
///
/// The version tag is checked first, then that the whole header is present,
/// then the cipher and mode tags and, for V5, the keyslots' hash tags: the
/// first keyslot must name a known hash, and each later one must be empty or
/// name one.
/// Padding bytes are not inspected.
pub open spec fn parse_header(b: Seq<u8>) -> Result<HeaderView, CoreError> {
    if b.len() < 2 {
        Err(CoreError::TruncatedHeader)
    } else if version_of_tag(b[0], b[1]) is None {
        Err(CoreError::UnsupportedVersion)
    } else {
        let v = version_of_tag(b[0], b[1])->Some_0;
        if b.len() < header_size(v) {
            Err(CoreError::TruncatedHeader)
        } else if cipher_of_tag(b[2], b[3]) is None || !is_stream_mode_tag(b[4], b[5]) {
            Err(CoreError::UnsupportedAlgorithm)
        } else {
            let c = cipher_of_tag(b[2], b[3])->Some_0;
            let nl = stream_nonce_len(c) as int;
            let kl = key_nonce_len(c) as int;
            match v {
                FormatVersion::V3 => Ok(
                    HeaderView {
                        version: v,
                        hashing: HashSpec::Argon2id(3),
                        cipher: c,
                        salt: b.subrange(6, 22),
                        nonce: b.subrange(38, 38 + nl),
                        wrapped_key: Seq::empty(),
                        key_nonce: Seq::empty(),
                    },
                ),
                FormatVersion::V4 => Ok(
                    HeaderView {
                        version: v,
                        hashing: HashSpec::Blake3Balloon(4),
                        cipher: c,
                        salt: b.subrange(6, 22),
                        nonce: b.subrange(22, 22 + nl),
                        wrapped_key: b.subrange(48, 96),
                        key_nonce: b.subrange(96, 96 + kl),
                    },
                ),
                FormatVersion::V5 => if hash_of_tag(b[32], b[33]) is None || !later_slots_known(
                    b,
                ) {
                    Err(CoreError::UnsupportedAlgorithm)
                } else {
                    Ok(
                        HeaderView {
                            version: v,
                            hashing: hash_of_tag(b[32], b[33])->Some_0,
                            cipher: c,
                            salt: b.subrange(106, 122),
                            nonce: b.subrange(6, 6 + nl),
                            wrapped_key: b.subrange(34, 82),
                            key_nonce: b.subrange(82, 82 + kl),
                        },
                    )
                },
            }
        }
    }
}

fn stream_nonce_length(c: Cipher) -> (r: usize)
    ensures
        r == stream_nonce_len(c),
{
    match c {
        Cipher::Aes256Gcm => 8,
        Cipher::XChaCha20Poly1305 => 20,
    }
}

fn key_nonce_length(c: Cipher) -> (r: usize)
    ensures
        r == key_nonce_len(c),
{
    match c {
        Cipher::Aes256Gcm => 12,
        Cipher::XChaCha20Poly1305 => 24,
    }
}

fn append_bytes(out: &mut Vec<u8>, src: &[u8])
    ensures
        final(out)@ == old(out)@ + src@,
{
    let mut i: usize = 0;
    while i < src.len()
        invariant
            i <= src@.len(),
            out@ == old(out)@ + src@.subrange(0, i as int),
        decreases src@.len() - i,
    {
        out.push(src[i]);
        i = i + 1;
        assert(src@.subrange(0, i as int) =~= src@.subrange(0, i - 1) + seq![src@[i - 1]]);
    }
    assert(src@.subrange(0, src@.len() as int) =~= src@);
}

fn append_zeros(out: &mut Vec<u8>, n: usize)
    ensures
        final(out)@ == old(out)@ + zeros(n as nat),
{
    let mut i: usize = 0;
    while i < n
        invariant
            i <= n,
            out@ == old(out)@ + zeros(i as nat),
        decreases n - i,
    {
        out.push(0u8);
        i = i + 1;
        assert(zeros(i as nat) =~= zeros((i - 1) as nat) + seq![0u8]);
    }
}

pub(crate) fn copy_range(b: &[u8], start: usize, end: usize) -> (r: Vec<u8>)
    requires
        start <= end <= b@.len(),
    ensures
        r@ == b@.subrange(start as int, end as int),
{
    let mut r: Vec<u8> = Vec::new();
    let mut i: usize = start;
    while i < end
        invariant
            start <= i <= end <= b@.len(),
            r@ == b@.subrange(start as int, i as int),
        decreases end - i,
    {
        r.push(b[i]);
        i = i + 1;
        assert(b@.subrange(start as int, i as int) =~= b@.subrange(start as int, i - 1) + seq![
            b@[i - 1],
        ]);
    }
    r
}

fn read_version(b0: u8, b1: u8) -> (r: Option<FormatVersion>)
    ensures
        r == version_of_tag(b0, b1),
{
    if b0 != 0xDE {
        None
    } else if b1 == 0x03 {
        Some(FormatVersion::V3)
    } else if b1 == 0x04 {
        Some(FormatVersion::V4)
    } else if b1 == 0x05 {
        Some(FormatVersion::V5)
    } else {
        None
    }
}

fn read_cipher(b0: u8, b1: u8) -> (r: Option<Cipher>)
    ensures
        r == cipher_of_tag(b0, b1),
{
    if b0 != 0x0E {
        None
    } else if b1 == 0x01 {
        Some(Cipher::XChaCha20Poly1305)
    } else if b1 == 0x02 {
        Some(Cipher::Aes256Gcm)
    } else {
        None
    }
}

fn read_hash(b0: u8, b1: u8) -> (r: Option<HashSpec>)
    ensures
        r == hash_of_tag(b0, b1),
{
    if b0 != 0xDF {
        None
    } else if 0xA1 <= b1 && b1 <= 0xA3 {
        Some(HashSpec::Argon2id(b1 - 0xA0))
    } else if 0xB4 <= b1 && b1 <= 0xB5 {
        Some(HashSpec::Blake3Balloon(b1 - 0xB0))
    } else {
        None
    }
}

fn read_slot_known(b0: u8, b1: u8) -> (r: bool)
    ensures
        r == (b0 != 0xDF || hash_of_tag(b0, b1) is Some),
{
    b0 != 0xDF || match read_hash(b0, b1) {
        Some(_) => true,
        None => false,
    }
}

fn write_version(v: FormatVersion) -> (r: u8)
    ensures
        r == version_tag(v),
{
    match v {
        FormatVersion::V3 => 0x03,
        FormatVersion::V4 => 0x04,
        FormatVersion::V5 => 0x05,
    }
}

fn write_cipher(c: Cipher) -> (r: u8)
    ensures
        r == cipher_tag(c),
{
    match c {
        Cipher::XChaCha20Poly1305 => 0x01,
        Cipher::Aes256Gcm => 0x02,
    }
}

fn write_hash(h: HashSpec) -> (r: u8)
    requires
        h.valid(),
    ensures
        r == hash_tag(h),
{
    match h {
        HashSpec::Argon2id(p) => 0xA0 + p,
        HashSpec::Blake3Balloon(p) => 0xB0 + p,
    }
}

/// Appends the serialized header to `sink`, whole.
pub fn write_header(sink: &mut Vec<u8>, h: &ContainerHeader)
    requires
        header_wf(h@),
    ensures
        final(sink)@ == old(sink)@ + header_bytes(h@),
{
    let nl = stream_nonce_length(h.cipher);
    let kl = key_nonce_length(h.cipher);
    let mut out: Vec<u8> = Vec::new();
    out.push(0xDE);
    out.push(write_version(h.version));
    out.push(0x0E);
    out.push(write_cipher(h.cipher));
    out.push(0x0C);
    out.push(0x01);
    assert(out@ =~= tag_bytes(h@));
    match h.version {
        FormatVersion::V3 => {
            append_bytes(&mut out, h.salt.as_slice());
            append_zeros(&mut out, 16);
            append_bytes(&mut out, h.nonce.as_slice());
            append_zeros(&mut out, 26 - nl);
        },
        FormatVersion::V4 => {
            append_bytes(&mut out, h.salt.as_slice());
            append_bytes(&mut out, h.nonce.as_slice());
            append_zeros(&mut out, 26 - nl);
            append_bytes(&mut out, h.wrapped_key.as_slice());
            append_bytes(&mut out, h.key_nonce.as_slice());
            append_zeros(&mut out, 32 - kl);
        },
        FormatVersion::V5 => {
            append_bytes(&mut out, h.nonce.as_slice());
            append_zeros(&mut out, 26 - nl);
            out.push(0xDF);
            out.push(write_hash(h.hashing));
            assert(out@ =~= tag_bytes(h@) + h.nonce@ + zeros((26 - nl) as nat) + seq![
                0xDFu8,
                hash_tag(h.hashing),
            ]);
            append_bytes(&mut out, h.wrapped_key.as_slice());
            append_bytes(&mut out, h.key_nonce.as_slice());
            append_zeros(&mut out, 24 - kl);
            append_bytes(&mut out, h.salt.as_slice());
            append_zeros(&mut out, 6);
            append_zeros(&mut out, 288);
        },
    }
    append_bytes(sink, out.as_slice());
}

/// Reads the header at the start of `source`; the bytes after it are not read.
pub fn read_header(source: &[u8]) -> (r: Result<ContainerHeader, CoreError>)
    ensures
        match parse_header(source@) {
            Ok(v) => r matches Ok(h) && h@ == v,
            Err(e) => r == Err::<ContainerHeader, CoreError>(e),
        },
{
    let n = source.len();
    if n < 2 {
        return Err(CoreError::TruncatedHeader);
    }
    let version = match read_version(source[0], source[1]) {
        Some(v) => v,
        None => {
            return Err(CoreError::UnsupportedVersion);
        },
    };
    let size: usize = match version {
        FormatVersion::V3 => 64,
        FormatVersion::V4 => 128,
        FormatVersion::V5 => 416,
    };
    if n < size {
        return Err(CoreError::TruncatedHeader);
    }
    let cipher = match read_cipher(source[2], source[3]) {
        Some(c) => c,
        None => {
            return Err(CoreError::UnsupportedAlgorithm);
        },
    };
    if !(source[4] == 0x0C && source[5] == 0x01) {
        return Err(CoreError::UnsupportedAlgorithm);
    }
    let nl = stream_nonce_length(cipher);
    let kl = key_nonce_length(cipher);
    match version {
        FormatVersion::V3 => Ok(
            ContainerHeader {
                version,
                hashing: HashSpec::Argon2id(3),
                cipher,
                salt: copy_range(source, 6, 22),
                nonce: copy_range(source, 38, 38 + nl),
                wrapped_key: Vec::new(),
                key_nonce: Vec::new(),
            },
        ),
        FormatVersion::V4 => Ok(
            ContainerHeader {
                version,
                hashing: HashSpec::Blake3Balloon(4),
                cipher,
                salt: copy_range(source, 6, 22),
                nonce: copy_range(source, 22, 22 + nl),
                wrapped_key: copy_range(source, 48, 96),
                key_nonce: copy_range(source, 96, 96 + kl),
            },
        ),
        FormatVersion::V5 => {
            let hashing = match read_hash(source[32], source[33]) {
                Some(hs) => hs,
                None => {
                    return Err(CoreError::UnsupportedAlgorithm);
                },
            };
            if !(read_slot_known(source[128], source[129]) && read_slot_known(
                source[224],
                source[225],
            ) && read_slot_known(source[320], source[321])) {
                return Err(CoreError::UnsupportedAlgorithm);
            }
            Ok(
                ContainerHeader {
                    version,
                    hashing,
                    cipher,
                    salt: copy_range(source, 106, 122),
                    nonce: copy_range(source, 6, 6 + nl),
                    wrapped_key: copy_range(source, 34, 82),
                    key_nonce: copy_range(source, 82, 82 + kl),
                },
            )
        },
    }
}


proof fn lemma_read_header_bytes(h: HeaderView, rest: Seq<u8>)
    requires
        header_wf(h),
    ensures
        parse_header(header_bytes(h) + rest) == Ok::<HeaderView, CoreError>(h),
{
    let hb = header_bytes(h);
    let b = hb + rest;
    let nl = stream_nonce_len(h.cipher) as int;
    let kl = key_nonce_len(h.cipher) as int;
    assert(hb.len() == header_size(h.version));
    assert(b.subrange(0, 6) =~= tag_bytes(h));
    assert(b[0] == tag_bytes(h)[0] && b[1] == tag_bytes(h)[1] && b[2] == tag_bytes(h)[2]);
    assert(b[3] == tag_bytes(h)[3] && b[4] == tag_bytes(h)[4] && b[5] == tag_bytes(h)[5]);
    assert(version_of_tag(b[0], b[1]) == Some(h.version));
    assert(cipher_of_tag(b[2], b[3]) == Some(h.cipher));
    match h.version {
        FormatVersion::V3 => {
            assert(b.subrange(6, 22) =~= h.salt);
            assert(b.subrange(38, 38 + nl) =~= h.nonce);
            assert(h.wrapped_key =~= Seq::<u8>::empty());
            assert(h.key_nonce =~= Seq::<u8>::empty());
        },
        FormatVersion::V4 => {
            assert(b.subrange(6, 22) =~= h.salt);
            assert(b.subrange(22, 22 + nl) =~= h.nonce);
            assert(b.subrange(48, 96) =~= h.wrapped_key);
            assert(b.subrange(96, 96 + kl) =~= h.key_nonce);
        },
        FormatVersion::V5 => {
            assert(b[32] == 0xDFu8 && b[33] == hash_tag(h.hashing));
            assert(hash_of_tag(b[32], b[33]) == Some(h.hashing));
            assert(b[128] == 0u8 && b[224] == 0u8 && b[320] == 0u8);
            assert(b.subrange(6, 6 + nl) =~= h.nonce);
            assert(b.subrange(34, 82) =~= h.wrapped_key);
            assert(b.subrange(82, 82 + kl) =~= h.key_nonce);
            assert(b.subrange(106, 122) =~= h.salt);
        },
    }
}

/// Reading a written header gives back exactly the header that was written,
/// whatever bytes follow it.
pub proof fn lemma_header_round_trip(h: HeaderView, rest: Seq<u8>)
    requires
        header_wf(h),
    ensures
        parse_header(header_bytes(h)) == Ok::<HeaderView, CoreError>(h),
        parse_header(header_bytes(h) + rest) == Ok::<HeaderView, CoreError>(h),
{
    lemma_read_header_bytes(h, rest);
    lemma_read_header_bytes(h, Seq::empty());
    assert(header_bytes(h) + Seq::<u8>::empty() =~= header_bytes(h));
}

/// Flipping one bit of a container's tag bytes makes its header unreadable:
/// a flip in the two version bytes is reported as an unsupported version, a
/// flip in the cipher or mode tags as an unsupported algorithm. The one flip
/// that turns a valid tag into another is left out: the lowest bit of the
/// version byte of a V4 or V5 header, which exchanges the two.
pub proof fn lemma_tag_bit_flip_rejected(h: HeaderView, rest: Seq<u8>, i: int, bit: u8)
    requires
        header_wf(h),
        0 <= i < 6,
        bit < 8,
        !(i == 1 && bit == 0 && h.version != FormatVersion::V3),
    ensures
        ({
            let b = header_bytes(h) + rest;
            let t = b.update(i, b[i] ^ (1u8 << bit));
            &&& i < 2 ==> parse_header(t) == Err::<HeaderView, CoreError>(
                CoreError::UnsupportedVersion,
            )
            &&& 2 <= i ==> parse_header(t) == Err::<HeaderView, CoreError>(
                CoreError::UnsupportedAlgorithm,
            )
        }),
{
    let b = header_bytes(h) + rest;
    lemma_read_header_bytes(h, rest);
    let x = b[i];
    let y = x ^ (1u8 << bit);
    let t = b.update(i, y);
    assert(b.subrange(0, 6) =~= tag_bytes(h));
    assert(b[0] == 0xDEu8 && b[2] == 0x0Eu8 && b[4] == 0x0Cu8 && b[5] == 0x01u8);
    assert(b[1] == version_tag(h.version) && b[3] == cipher_tag(h.cipher));
    assert(y != x) by (bit_vector)
        requires
            y == x ^ (1u8 << bit),
            bit < 8,
    ;
    if i == 1 {
        if x == 3 {
            assert(y != 4 && y != 5) by (bit_vector)
                requires
                    y == x ^ (1u8 << bit),
                    x == 3,
                    bit < 8,
            ;
        } else if x == 4 {
            assert(y != 3 && (bit != 0 ==> y != 5)) by (bit_vector)
                requires
                    y == x ^ (1u8 << bit),
                    x == 4,
                    bit < 8,
            ;
        } else {
            assert(y != 3 && (bit != 0 ==> y != 4)) by (bit_vector)
                requires
                    y == x ^ (1u8 << bit),
                    x == 5,
                    bit < 8,
            ;
        }
    }
    if i == 3 {
        assert(y != 1 && y != 2) by (bit_vector)
            requires
                y == x ^ (1u8 << bit),
                x == 1 || x == 2,
                bit < 8,
        ;
    }
    assert(t.len() == b.len());
    assert(forall|j: int| 0 <= j < t.len() && j != i ==> t[j] == b[j]);
    assert(t[i] == y);
}

} // verus!
