use vstd::prelude::*;

verus! {

/// Every way in which a key, header or container operation can fail.
#[derive(Clone, Copy, Debug, PartialEq, Eq, Structural)]
pub enum CoreError {
    /// A key was not exactly 32 bytes long.
    InvalidKeySize,
    /// A hashing algorithm, cipher or stream mode is not one that is supported.
    UnsupportedAlgorithm,
    /// A format version is not one that is supported.
    UnsupportedVersion,
    /// The input ended before all fixed header fields were read.
    TruncatedHeader,
    /// A key or a ciphertext chunk failed authentication.
    AuthenticationFailed,
    /// The header-inspection callback refused the container.
    CallbackRejected,
    /// Key stretching failed inside the hash function.
    KeyDerivationFailed,
    /// Reading or writing a stream failed.
    IoError,
}

} // verus!
