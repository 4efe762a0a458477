//! Trusted boundary to the cryptographic primitives.
//!
//! Every function here is an `external_body` wrapper around one operation of
//! an outside crate; its contract is what the rest of the library builds on.
//! Deterministic results are named by uninterpreted spec functions, so
//! contracts elsewhere can state determinism and inversion without spelling
//! out the algorithms.

use vstd::prelude::*;

use crypto_secretbox::aead::Aead;
use crypto_secretbox::KeyInit;

verus! {

/// Width in bytes of a symmetric encryption key.
pub const KEY_BYTES: usize = 32;

/// Width in bytes of a symmetric encryption nonce.
pub const NONCE_BYTES: usize = 24;

/// Width in bytes of the authentication tag of the authenticated cipher.
pub const TAG_BYTES: usize = 16;

/// The SHA3-256 digest of `data`.
pub uninterp spec fn spec_sha3_256(data: Seq<u8>) -> Seq<u8>;

/// The scrypt output for a secret, a salt, the cost parameters
/// (log₂ N, r, p) and an output length.
pub uninterp spec fn spec_pwhash(
    secret: Seq<u8>,
    salt: Seq<u8>,
    log_n: u8,
    r: u32,
    p: u32,
    out_len: usize,
) -> Seq<u8>;

/// The authenticated ciphertext for a plaintext, nonce and key.
pub uninterp spec fn spec_seal(plain: Seq<u8>, nonce: Seq<u8>, key: Seq<u8>) -> Seq<u8>;

/// The signing keypair derived from a 32-byte seed: the 64-byte keypair
/// encoding and the 32-byte public key.
pub uninterp spec fn spec_sign_keypair(seed: Seq<u8>) -> (Seq<u8>, Seq<u8>);

/// The public key of a 32-byte asymmetric-encryption secret key.
pub uninterp spec fn spec_box_public(secret: Seq<u8>) -> Seq<u8>;

/// The public key of a 32-byte aggregate-signature secret key.
pub uninterp spec fn spec_bls_public(secret: Seq<u8>) -> Seq<u8>;

/// Relies on `tiny_keccak::sha3_256`: the 32-byte digest depends on the
/// input bytes alone.
#[verifier::external_body]
pub(crate) fn sha3_256(data: &[u8]) -> (r: Vec<u8>)
    ensures
        r@ == spec_sha3_256(data@),
        r@.len() == 32,
{
    tiny_keccak::sha3_256(data).to_vec()
}

/// Relies on `scrypt::scrypt` and `scrypt::Params::new`: the derived bytes
/// depend on the secret, the salt and the cost parameters alone. The
/// documented failures are an empty or oversized output and cost
/// parameters the primitive rejects; within the stated region it succeeds.
#[verifier::external_body]
pub(crate) fn pwhash(
    secret: &[u8],
    salt: &[u8],
    log_n: u8,
    r: u32,
    p: u32,
    out_len: usize,
) -> (res: Option<Vec<u8>>)
    ensures
        res is Some ==> res.unwrap()@ == spec_pwhash(secret@, salt@, log_n, r, p, out_len)
            && res.unwrap()@.len() == out_len,
        1 <= log_n <= 20 && 1 <= r <= 8 && p == 1 && 1 <= out_len <= 1024 ==> res is Some,
{
    let params = match scrypt::Params::new(log_n, r, p) {
        Ok(q) => q,
        Err(_) => return None,
    };
    let mut out = vec![0u8; out_len];
    match scrypt::scrypt(secret, salt, &params, &mut out) {
        Ok(()) => Some(out),
        Err(_) => None,
    }
}

/// Relies on `crypto_secretbox::XSalsa20Poly1305::encrypt`: the ciphertext
/// depends on the plaintext, nonce and key alone, and is the plaintext
/// plus the 16-byte authentication tag; with no associated data the
/// operation does not fail.
#[verifier::external_body]
pub(crate) fn seal(plain: &[u8], nonce: &[u8], key: &[u8]) -> (r: Vec<u8>)
    requires
        nonce@.len() == NONCE_BYTES,
        key@.len() == KEY_BYTES,
    ensures
        r@ == spec_seal(plain@, nonce@, key@),
        r@.len() == plain@.len() + TAG_BYTES,
{
    let cipher = crypto_secretbox::XSalsa20Poly1305::new(crypto_secretbox::Key::from_slice(key));
    cipher.encrypt(crypto_secretbox::Nonce::from_slice(nonce), plain).unwrap()
}

/// Relies on `crypto_secretbox::XSalsa20Poly1305::decrypt`: opening
/// succeeds exactly on ciphertexts sealed with the same key and nonce, and
/// returns the plaintext that was sealed.
#[verifier::external_body]
pub(crate) fn open(cipher_text: &[u8], nonce: &[u8], key: &[u8]) -> (r: Option<Vec<u8>>)
    requires
        nonce@.len() == NONCE_BYTES,
        key@.len() == KEY_BYTES,
    ensures
        r is Some ==> cipher_text@ == spec_seal(r.unwrap()@, nonce@, key@),
        forall|m: Seq<u8>| cipher_text@ == spec_seal(m, nonce@, key@) ==> r is Some
            && r.unwrap()@ == m,
{
    let cipher = crypto_secretbox::XSalsa20Poly1305::new(crypto_secretbox::Key::from_slice(key));
    cipher.decrypt(crypto_secretbox::Nonce::from_slice(nonce), cipher_text).ok()
}

/// Relies on `ed25519_dalek::SigningKey::from_bytes`, `to_keypair_bytes`
/// and `verifying_key`: the keypair is derived from the seed alone, and
/// the keypair encoding is the seed followed by the public key.
#[verifier::external_body]
pub(crate) fn sign_keypair_from_seed(seed: &[u8; 32]) -> (r: ([u8; 64], [u8; 32]))
    ensures
        r.0@ == spec_sign_keypair(seed@).0,
        r.1@ == spec_sign_keypair(seed@).1,
        r.0@.subrange(0, 32) == seed@,
        r.0@.subrange(32, 64) == r.1@,
{
    let sk = ed25519_dalek::SigningKey::from_bytes(seed);
    (sk.to_keypair_bytes(), sk.verifying_key().to_bytes())
}

/// Relies on `x25519_dalek::PublicKey::from(&StaticSecret)`: the public
/// key depends on the 32-byte secret alone.
#[verifier::external_body]
pub(crate) fn box_public_from_secret(secret: &[u8; 32]) -> (r: [u8; 32])
    ensures
        r@ == spec_box_public(secret@),
{
    let sk = x25519_dalek::StaticSecret::from(*secret);
    x25519_dalek::PublicKey::from(&sk).to_bytes()
}

/// Relies on `blsttc::SecretKey::random`, `public_key` and `to_bytes`: a
/// fresh secret key with its public key; only the projection of public
/// from secret is stated, nothing of the random value itself.
#[verifier::external_body]
pub(crate) fn bls_generate() -> (r: ([u8; 32], [u8; 48]))
    ensures
        r.1@ == spec_bls_public(r.0@),
{
    let sk = blsttc::SecretKey::random();
    let pk = sk.public_key().to_bytes();
    (sk.to_bytes(), pk)
}

/// Relies on `rand::random`: 32 fresh random bytes; nothing is stated of
/// their value.
#[verifier::external_body]
pub(crate) fn random_bytes32() -> [u8; 32] {
    rand::random::<[u8; 32]>()
}

} // verus!
