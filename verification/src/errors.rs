//! The extraction pipeline's failure taxonomy.

use vstd::prelude::*;

verus! {

/// Failure taxonomy of the extraction pipeline.
///
/// `IoError`, `FormatError`, `CryptoError` and `UnsupportedPlatform` are
/// variant-scoped: the aggregator records the variant as contributing no
/// credentials and moves on. `NoCredentialsFound` is the single aggregate
/// failure, raised only when no variant yielded any credential.
#[derive(Clone, Copy, Debug, PartialEq, Eq, Structural)]
pub enum ExtractError {
    /// A state file or the storage directory could not be read.
    IoError,
    /// Malformed JSON, base64 or key marker at the key-unwrap stage.
    FormatError,
    /// The protected-storage primitive rejected the wrapped key blob.
    CryptoError,
    /// No protected-storage primitive exists on this platform.
    UnsupportedPlatform,
    /// Nothing was recoverable from any client variant.
    NoCredentialsFound,
}

impl ExtractError {
    /// The text that `message` returns for each variant.
    pub open spec fn spec_message(&self) -> Seq<char> {
        match self {
            ExtractError::IoError => "could not read client storage"@,
            ExtractError::FormatError => "malformed wrapped key material"@,
            ExtractError::CryptoError => "protected storage rejected the wrapped key"@,
            ExtractError::UnsupportedPlatform => "no protected storage on this platform"@,
            ExtractError::NoCredentialsFound => "no credentials recoverable from any client"@,
        }
    }

    /// A short description of the failure, for callers that report it.
    pub fn message(&self) -> (r: &'static str)
        ensures
            r@ == self.spec_message(),
    {
        match self {
            ExtractError::IoError => "could not read client storage",
            ExtractError::FormatError => "malformed wrapped key material",
            ExtractError::CryptoError => "protected storage rejected the wrapped key",
            ExtractError::UnsupportedPlatform => "no protected storage on this platform",
            ExtractError::NoCredentialsFound => "no credentials recoverable from any client",
        }
    }
}

} // verus!
