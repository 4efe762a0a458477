//! Tests of identity derivation, the client key bundle, and encrypted
//! account persistence.

use safe_core::account::Account;
use safe_core::client_keys::ClientKeys;
use safe_core::errors::CoreError;
use safe_core::kdf;

// Test deterministically generating User's Identity for the network using supplied credentials.
#[test]
fn generate_network_id() {
    let keyword1 = b"user1";

    let user1_id1 = Account::generate_network_id(keyword1, b"0").unwrap();
    let user1_id2 = Account::generate_network_id(keyword1, b"1234").unwrap();
    let user1_id3 = Account::generate_network_id(keyword1, u32::MAX.to_string().as_bytes()).unwrap();

    assert_ne!(user1_id1, user1_id2);
    assert_ne!(user1_id1, user1_id3);
    assert_ne!(user1_id2, user1_id3);

    assert_eq!(
        user1_id1,
        Account::generate_network_id(keyword1, b"0").unwrap()
    );
    assert_eq!(
        user1_id2,
        Account::generate_network_id(keyword1, b"1234").unwrap()
    );
    assert_eq!(
        user1_id3,
        Account::generate_network_id(keyword1, u32::MAX.to_string().as_bytes()).unwrap()
    );

    let keyword2 = b"user2";
    let user1_id = Account::generate_network_id(keyword1, b"248").unwrap();
    let user2_id = Account::generate_network_id(keyword2, b"248").unwrap();

    assert_ne!(user1_id, user2_id);
}

// Test deterministically generating cryptographic keys.
#[test]
fn generate_crypto_keys() {
    let password1 = b"super great password";
    let password2 = b"even better password";

    let keys1 = Account::generate_crypto_keys(password1, b"0").unwrap();
    let keys2 = Account::generate_crypto_keys(password1, b"1234").unwrap();
    let keys3 = Account::generate_crypto_keys(password1, u32::MAX.to_string().as_bytes()).unwrap();
    assert_ne!(keys1, keys2);
    assert_ne!(keys1, keys3);
    assert_ne!(keys2, keys3);

    let keys1 = Account::generate_crypto_keys(password1, b"0").unwrap();
    let keys2 = Account::generate_crypto_keys(password2, b"0").unwrap();
    assert_ne!(keys1, keys2);

    let keys1 = Account::generate_crypto_keys(password1, b"0").unwrap();
    let keys2 = Account::generate_crypto_keys(password1, b"0").unwrap();
    assert_eq!(keys1, keys2);
}

// Test serialising and deserialising accounts.
#[test]
fn serialisation() {
    let account = Account::new(ClientKeys::new(None)).unwrap();
    let encoded = account.serialise();
    let decoded = Account::deserialise(&encoded).unwrap();

    assert_eq!(decoded, account);
}

// Test encryption and decryption of accounts.
#[test]
fn encryption() {
    let account = Account::new(ClientKeys::new(None)).unwrap();

    let password = b"impossible to guess";
    let pin = b"1000";

    let encrypted = account.encrypt(password, pin).unwrap();
    let encoded = account.serialise();
    assert!(!encrypted.is_empty());
    assert_ne!(encrypted, encoded);

    let decrypted = Account::decrypt(&encrypted, password, pin).unwrap();
    assert_eq!(account, decrypted);
}

// Decrypting with the wrong password or pin fails as wrong credentials,
// never as garbage plaintext.
#[test]
fn decryption_with_wrong_credentials_fails() {
    let account = Account::new(ClientKeys::new(None)).unwrap();
    let encrypted = account.encrypt(b"right password", b"1234").unwrap();

    let wrong_password = Account::decrypt(&encrypted, b"wrong password", b"1234");
    assert_eq!(wrong_password.unwrap_err(), CoreError::SymmetricDecipherFailure);

    let wrong_pin = Account::decrypt(&encrypted, b"right password", b"4321");
    assert_eq!(wrong_pin.unwrap_err(), CoreError::SymmetricDecipherFailure);

    let mut corrupted = account.encrypt(b"right password", b"1234").unwrap();
    let last = corrupted.len() - 1;
    corrupted[last] = corrupted[last].wrapping_add(1);
    let tampered = Account::decrypt(&corrupted, b"right password", b"1234");
    assert_eq!(tampered.unwrap_err(), CoreError::SymmetricDecipherFailure);
}

// Bytes that are no canonical account serialization are rejected.
#[test]
fn deserialise_rejects_malformed_bytes() {
    let err = Account::deserialise(&[1, 2, 3]).unwrap_err();
    assert_eq!(err, CoreError::EncodeDecodeError);

    let account = Account::new(ClientKeys::new(None)).unwrap();
    let mut encoded = account.serialise();
    let last = encoded.len() - 1;
    encoded[last] = 7;
    let err = Account::deserialise(&encoded).unwrap_err();
    assert_eq!(err, CoreError::EncodeDecodeError);
}

// The derived output length is the caller's to pick, within bounds.
#[test]
fn derive_key_rejects_unusable_lengths() {
    let err = kdf::derive_key(0, b"secret", b"salt").unwrap_err();
    assert_eq!(err, CoreError::UnsuccessfulDerivation);

    let out = kdf::derive_key(64, b"secret", b"salt").unwrap();
    assert_eq!(out.len(), 64);
    let again = kdf::derive_key(64, b"secret", b"salt").unwrap();
    assert_eq!(out, again);
    assert_ne!(&out[..], b"secret".as_slice());
}

// A seed reproduces the signing keypair; everything else stays fresh.
#[test]
fn seeded_client_keys_are_reproducible() {
    let seed = [7u8; 32];
    let k1 = ClientKeys::new(Some(&seed));
    let k2 = ClientKeys::new(Some(&seed));
    assert_eq!(k1.sign_pk, k2.sign_pk);
    assert_eq!(&k1.sign_sk[..], &k2.sign_sk[..]);
    assert_ne!(k1.sign_pk, seed);

    let other = ClientKeys::new(Some(&[8u8; 32]));
    assert_ne!(k1.sign_pk, other.sign_pk);

    // The rest of the bundle is freshly random per call.
    assert_ne!(k1.enc_sk, k2.enc_sk);
    assert_ne!(k1.enc_key, k2.enc_key);
    assert_ne!(k1.bls_sk, k2.bls_sk);
}

// The aggregate-signature public key is derived from its secret key, not
// a copy of it.
#[test]
fn bls_public_key_is_projection() {
    let k = ClientKeys::new(None);
    assert_ne!(&k.bls_pk[..32], &k.bls_sk[..]);
    assert_ne!(k.bls_pk, [0u8; 48]);
}

// The one-way conversions carry the expected key material.
#[test]
fn client_keys_conversions() {
    let k = ClientKeys::new(None);
    let bls_sk = k.bls_sk;
    let sign_pk = k.sign_pk;

    let full_id = k.into_full_id();
    assert_eq!(full_id.bls_sk, bls_sk);
    assert_eq!(full_id.sign_pk, sign_pk);

    let k = ClientKeys::new(None);
    let bls_sk = k.bls_sk;
    let owner = safe_core::types::PublicKey([3u8; 32]);
    let app_id = k.into_app_full_id(owner);
    assert_eq!(app_id.bls_sk, bls_sk);
    assert_eq!(app_id.owner, owner);

    let k = ClientKeys::new(None);
    let bls_sk = k.bls_sk;
    let client_id = k.into_client_full_id();
    assert_eq!(client_id.bls_sk, bls_sk);
}

// A fresh account starts unprovisioned, with the shared directory tag.
#[test]
fn new_account_directories() {
    let account = Account::new(ClientKeys::new(None)).unwrap();
    assert!(!account.root_dirs_created);
    assert_eq!(account.access_container.type_tag, safe_core::account::DIR_TAG);
    assert_eq!(account.config_root.type_tag, safe_core::account::DIR_TAG);
    // The two directories are named independently at random.
    assert_ne!(account.access_container.name, account.config_root.name);
}
