//! Deterministic key derivation: stretches a low-entropy secret and salt
//! into fixed-width output with a deliberately slow, memory-hard function at
//! interactive cost parameters.
//!
//! The fixed-width salt the primitive consumes is itself the hash of the
//! caller's salt, so salts of any length are accepted. Identical inputs
//! always yield identical output.

use vstd::prelude::*;

use crate::crypto;
use crate::crypto::{spec_pwhash, spec_sha3_256};
use crate::errors::CoreError;

verus! {

/// log₂ of the CPU/memory cost parameter, at interactive strength.
pub const PWHASH_LOG_N: u8 = 14;

/// Block-size cost parameter.
pub const PWHASH_R: u32 = 8;

/// Parallelism cost parameter.
pub const PWHASH_P: u32 = 1;

/// Width in bytes of the fixed salt the password-hashing primitive takes.
pub const PWHASH_SALT_BYTES: usize = 32;

/// Largest derived output the library hands out in one call.
pub const MAX_DERIVED_BYTES: usize = 1024;

/// The derived bytes for a secret and a caller salt of any length: the
/// salt is first hashed to the fixed width, then the secret is stretched
/// at interactive cost.
pub open spec fn spec_derive_key(input: Seq<u8>, user_salt: Seq<u8>, out_len: usize) -> Seq<u8> {
    spec_pwhash(input, spec_sha3_256(user_salt), PWHASH_LOG_N, PWHASH_R, PWHASH_P, out_len)
}

/// Stretches `input` into `out_len` deterministic bytes, salted by
/// `user_salt`. Succeeds exactly when the requested length is between 1
/// and [`MAX_DERIVED_BYTES`]; identical inputs always yield identical
/// output.
pub fn derive_key(out_len: usize, input: &[u8], user_salt: &[u8]) -> (r: Result<Vec<u8>, CoreError>)
    ensures
        1 <= out_len <= MAX_DERIVED_BYTES <==> r is Ok,
        r matches Ok(v) ==> v@ == spec_derive_key(input@, user_salt@, out_len) && v@.len()
            == out_len,
        r is Err ==> r == Err::<Vec<u8>, CoreError>(CoreError::UnsuccessfulDerivation),
{
    if out_len < 1 || out_len > MAX_DERIVED_BYTES {
        return Err(CoreError::UnsuccessfulDerivation);
    }
    let salt = crypto::sha3_256(user_salt);
    if salt.len() != PWHASH_SALT_BYTES {
        // The primitive takes exactly the hash width; any other width
        // would be a defect of the hashing layer.
        return Err(CoreError::UnsupportedSaltSize);
    }
    match crypto::pwhash(input, salt.as_slice(), PWHASH_LOG_N, PWHASH_R, PWHASH_P, out_len) {
        Some(out) => Ok(out),
        None => Err(CoreError::UnsuccessfulDerivation),
    }
}

/// Determinism of derivation: two results of [`derive_key`] for the same
/// secret, salt and length are the same bytes.
pub proof fn lemma_derive_key_deterministic(
    r1: Seq<u8>,
    r2: Seq<u8>,
    input: Seq<u8>,
    user_salt: Seq<u8>,
    out_len: usize,
)
    requires
        r1 == spec_derive_key(input, user_salt, out_len),
        r2 == spec_derive_key(input, user_salt, out_len),
    ensures
        r1 == r2,
{
}

} // verus!
