//! Error taxonomy of the library.

use vstd::prelude::*;

verus! {

/// What went wrong while mirroring a package.
///
/// Each variant carries a human-readable message.  `InvalidInput` covers
/// malformed arguments such as a bad regular expression; `UnsupportedFormat`
/// marks files that are not conda packages; `NetworkError` is reserved for
/// transport failures reported by the caller; `ParseError` marks manifest
/// decoding failures; `ValidationError` marks checksum or emptiness
/// violations; `StorageError` marks failed backend writes.
#[derive(Clone, Debug, PartialEq, Eq)]
pub enum MirrorError {
    InvalidInput(String),
    UnsupportedFormat(String),
    NetworkError(String),
    ParseError(String),
    ValidationError(String),
    StorageError(String),
}

impl MirrorError {
    /// The message carried by the error.
    pub fn message(&self) -> (r: String)
        ensures
            r@ == self.spec_message(),
    {
        match self {
            MirrorError::InvalidInput(m) => m.clone(),
            MirrorError::UnsupportedFormat(m) => m.clone(),
            MirrorError::NetworkError(m) => m.clone(),
            MirrorError::ParseError(m) => m.clone(),
            MirrorError::ValidationError(m) => m.clone(),
            MirrorError::StorageError(m) => m.clone(),
        }
    }

    /// The message, at specification level.
    pub open spec fn spec_message(&self) -> Seq<char> {
        match self {
            MirrorError::InvalidInput(m) => m@,
            MirrorError::UnsupportedFormat(m) => m@,
            MirrorError::NetworkError(m) => m@,
            MirrorError::ParseError(m) => m@,
            MirrorError::ValidationError(m) => m@,
            MirrorError::StorageError(m) => m@,
        }
    }
}

} // verus!
