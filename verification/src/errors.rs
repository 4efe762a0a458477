//! Error values returned by the client-side operations, the vault backend,
//! and the permission conversions.

use vstd::prelude::*;

verus! {

/// Failure of a client-side cryptographic operation.
///
/// Expected conditions are returned, never panicked; identical inputs
/// reproduce the same failure.
#[derive(Clone, Copy, Debug, PartialEq, Eq, Structural)]
pub enum CoreError {
    /// The internally produced fixed-width salt does not have the width the
    /// password-hashing primitive expects.
    UnsupportedSaltSize,
    /// The password-hashing primitive rejected its parameters or the
    /// requested output length.
    UnsuccessfulDerivation,
    /// Authenticated decryption failed: wrong credentials, or corrupted
    /// data; the two are indistinguishable by design.
    SymmetricDecipherFailure,
    /// Bytes that were expected to hold a serialized value do not.
    EncodeDecodeError,
    /// A response came back in a shape the caller cannot use.
    Unexpected,
    /// A test-only fault control that this build does not implement.
    OperationUnsupported,
}

/// Failure reported by the vault backend.
#[derive(Clone, Copy, Debug, PartialEq, Eq, Structural)]
pub enum VaultError {
    /// A credit would push the balance past the representable maximum.
    BalanceOverflow,
    /// A debit asked for more than the current balance.
    BalanceUnderflow,
    /// An authorization mutation supplied an expected version that is not
    /// one more than the current version; carries the current version.
    VersionConflict(u64),
    /// An authorization delete named a key that is not present.
    KeyNotFound,
    /// The request bytes could not be decoded.
    MalformedRequest,
    /// A direct balance operation named an identity with no balance.
    NoSuchBalance,
}

/// Failure of a permission-set conversion.
#[derive(Clone, Copy, Debug, PartialEq, Eq, Structural)]
pub enum IpcError {
    /// A permission set with no flag set cannot be converted.
    NoPermissionsProvided,
    /// A permission set carrying only the read flag cannot be converted.
    ReadOnlyPermissions,
}

} // verus!
