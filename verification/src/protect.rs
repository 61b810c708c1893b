//! The protected-storage capability and its test implementations.

use crate::errors::ExtractError;
use vstd::prelude::*;
use vstd::slice::slice_to_vec;
use vstd::std_specs::cmp::PartialEqSpec;

verus! {

/// The platform protected-storage capability: unwraps a wrapped master-key
/// blob using a per-user secret. One implementation per supported platform;
/// `spec_unwrap` is the implementation's mathematical model, so that every
/// caller's contract is exact for whichever store it is handed.
pub trait ProtectedStore {
    /// What this store returns for `blob`.
    spec fn spec_unwrap(&self, blob: Seq<u8>) -> Result<Seq<u8>, ExtractError>;

    /// Unwraps one wrapped key blob. A failure is `CryptoError` (the blob was
    /// rejected) or `UnsupportedPlatform` (no primitive on this platform).
    fn unwrap_protected(&self, blob: &[u8]) -> (r: Result<Vec<u8>, ExtractError>)
        ensures
            match r {
                Ok(k) => self.spec_unwrap(blob@) == Ok::<Seq<u8>, ExtractError>(k@),
                Err(e) => self.spec_unwrap(blob@) == Err::<Seq<u8>, ExtractError>(e) && (e
                    == ExtractError::CryptoError || e == ExtractError::UnsupportedPlatform),
            },
    ;

    /// Every failure of the model itself is variant-scoped: a rejected blob
    /// or a missing primitive, never the aggregate error.
    proof fn unwrap_errors_are_scoped(&self, blob: Seq<u8>)
        ensures
            match self.spec_unwrap(blob) {
                Ok(_) => true,
                Err(e) => e == ExtractError::CryptoError || e
                    == ExtractError::UnsupportedPlatform,
            },
    ;
}

/// A substitutable protected-storage implementation for testing: it unwraps
/// exactly one declared blob into one declared key and rejects every other.
pub struct MockProtectedStore {
    /// The only blob this mock accepts.
    pub wrapped: Vec<u8>,
    /// The key that unwrapping `wrapped` yields.
    pub key: Vec<u8>,
}

impl ProtectedStore for MockProtectedStore {
    open spec fn spec_unwrap(&self, blob: Seq<u8>) -> Result<Seq<u8>, ExtractError> {
        if blob == self.wrapped@ {
            Ok(self.key@)
        } else {
            Err(ExtractError::CryptoError)
        }
    }

    fn unwrap_protected(&self, blob: &[u8]) -> (r: Result<Vec<u8>, ExtractError>) {
        let b = slice_to_vec(blob);
        if b == self.wrapped {
            proof {
                assert(blob@ =~= self.wrapped@);
            }
            Ok(slice_to_vec(self.key.as_slice()))
        } else {
            proof {
                assert(blob@ != self.wrapped@) by {
                    if blob@ == self.wrapped@ {
                        assert(b.eq_spec(&self.wrapped));
                    }
                }
            }
            Err(ExtractError::CryptoError)
        }
    }

    proof fn unwrap_errors_are_scoped(&self, blob: Seq<u8>) {
    }
}

/// The store used on platforms without a protected-storage primitive: every
/// unwrap fails with `UnsupportedPlatform`, demoting the variant to zero
/// contributions without aborting the overall run.
pub struct UnsupportedPlatformStore;

impl ProtectedStore for UnsupportedPlatformStore {
    open spec fn spec_unwrap(&self, blob: Seq<u8>) -> Result<Seq<u8>, ExtractError> {
        Err(ExtractError::UnsupportedPlatform)
    }

    fn unwrap_protected(&self, blob: &[u8]) -> (r: Result<Vec<u8>, ExtractError>) {
        Err(ExtractError::UnsupportedPlatform)
    }

    proof fn unwrap_errors_are_scoped(&self, blob: Seq<u8>) {
    }
}

} // verus!
