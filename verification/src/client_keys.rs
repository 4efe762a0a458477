//! The client's full key bundle: signing, asymmetric-encryption, symmetric
//! and aggregate-signature keys, generated as one atomic unit.

use vstd::prelude::*;

use crate::crypto;
use crate::crypto::{spec_bls_public, spec_box_public, spec_sign_keypair};
use crate::types::{bytes32_eq, bytes48_eq, bytes64_eq, PublicKey};

verus! {

/// Client signing and encryption keypairs.
///
/// The bundle is generated atomically and is never partially populated;
/// the aggregate-signature public key is always exactly the public
/// projection of its secret key.
#[derive(Clone, Copy, Debug)]
pub struct ClientKeys {
    /// Signing public key.
    pub sign_pk: [u8; 32],
    /// Signing secret key, in keypair encoding.
    pub sign_sk: [u8; 64],
    /// Encryption public key.
    pub enc_pk: [u8; 32],
    /// Encryption secret key.
    pub enc_sk: [u8; 32],
    /// Symmetric encryption key.
    pub enc_key: [u8; 32],
    /// Aggregate-signature (BLS) public key.
    pub bls_pk: [u8; 48],
    /// Aggregate-signature (BLS) secret key.
    pub bls_sk: [u8; 32],
}

impl PartialEq for ClientKeys {
    fn eq(&self, other: &ClientKeys) -> (r: bool) {
        bytes32_eq(&self.sign_pk, &other.sign_pk) && bytes64_eq(&self.sign_sk, &other.sign_sk)
            && bytes32_eq(&self.enc_pk, &other.enc_pk) && bytes32_eq(&self.enc_sk, &other.enc_sk)
            && bytes32_eq(&self.enc_key, &other.enc_key) && bytes48_eq(&self.bls_pk, &other.bls_pk)
            && bytes32_eq(&self.bls_sk, &other.bls_sk)
    }
}

impl vstd::std_specs::cmp::PartialEqSpecImpl for ClientKeys {
    open spec fn obeys_eq_spec() -> bool {
        true
    }

    open spec fn eq_spec(&self, other: &ClientKeys) -> bool {
        self.sign_pk@ == other.sign_pk@ && self.sign_sk@ == other.sign_sk@ && self.enc_pk@
            == other.enc_pk@ && self.enc_sk@ == other.enc_sk@ && self.enc_key@ == other.enc_key@
            && self.bls_pk@ == other.bls_pk@ && self.bls_sk@ == other.bls_sk@
    }
}

impl ClientKeys {
    /// The aggregate-signature public key is the public projection of the
    /// aggregate-signature secret key.
    pub open spec fn wf(&self) -> bool {
        self.bls_pk@ == spec_bls_public(self.bls_sk@)
    }

    /// Generates the full bundle atomically. A supplied seed makes the
    /// signing keypair reproducible; all other keys are freshly random on
    /// every call.
    pub fn new(seed: Option<&[u8; 32]>) -> (r: Self)
        ensures
            r.wf(),
            r.enc_pk@ == spec_box_public(r.enc_sk@),
            seed matches Some(s) ==> r.sign_sk@ == spec_sign_keypair(s@).0 && r.sign_pk@
                == spec_sign_keypair(s@).1,
    {
        let sign = match seed {
            Some(s) => crypto::sign_keypair_from_seed(s),
            None => {
                let fresh = crypto::random_bytes32();
                crypto::sign_keypair_from_seed(&fresh)
            },
        };
        let enc_sk = crypto::random_bytes32();
        let enc_pk = crypto::box_public_from_secret(&enc_sk);
        let enc_key = crypto::random_bytes32();
        let bls = crypto::bls_generate();
        ClientKeys {
            sign_pk: sign.1,
            sign_sk: sign.0,
            enc_pk,
            enc_sk,
            enc_key,
            bls_pk: bls.1,
            bls_sk: bls.0,
        }
    }

    /// Converts the bundle into a full application identity bound to the
    /// given owner key, consuming the bundle.
    pub fn into_app_full_id(self, owner_key: PublicKey) -> (r: AppFullId)
        ensures
            r.bls_sk@ == self.bls_sk@,
            r.owner@ == owner_key@,
    {
        AppFullId { bls_sk: self.bls_sk, owner: owner_key }
    }

    /// Converts the bundle into a full network-identity keypair set,
    /// consuming the bundle.
    pub fn into_full_id(self) -> (r: FullId)
        ensures
            r.enc_pk@ == self.enc_pk@,
            r.enc_sk@ == self.enc_sk@,
            r.sign_pk@ == self.sign_pk@,
            r.sign_sk@ == self.sign_sk@,
            r.bls_sk@ == self.bls_sk@,
    {
        FullId {
            enc_pk: self.enc_pk,
            enc_sk: self.enc_sk,
            sign_pk: self.sign_pk,
            sign_sk: self.sign_sk,
            bls_sk: self.bls_sk,
        }
    }

    /// Converts the bundle into a client identity carrying the
    /// aggregate-signature secret key, consuming the bundle.
    pub fn into_client_full_id(self) -> (r: ClientFullId)
        ensures
            r.bls_sk@ == self.bls_sk@,
    {
        ClientFullId { bls_sk: self.bls_sk }
    }
}

impl Default for ClientKeys {
    /// A freshly random bundle, as from [`ClientKeys::new`] without a seed.
    fn default() -> (r: Self)
        ensures
            r.wf(),
    {
        ClientKeys::new(None)
    }
}

/// A full network identity: every keypair a client authenticates with.
pub struct FullId {
    /// Encryption public key.
    pub enc_pk: [u8; 32],
    /// Encryption secret key.
    pub enc_sk: [u8; 32],
    /// Signing public key.
    pub sign_pk: [u8; 32],
    /// Signing secret key, in keypair encoding.
    pub sign_sk: [u8; 64],
    /// Aggregate-signature secret key.
    pub bls_sk: [u8; 32],
}

/// A full application identity: the app's aggregate-signature secret key
/// bound to the owner's public key.
pub struct AppFullId {
    /// The application's aggregate-signature secret key.
    pub bls_sk: [u8; 32],
    /// The key of the account that owns the application.
    pub owner: PublicKey,
}

/// A client identity carrying only the aggregate-signature secret key.
pub struct ClientFullId {
    /// The client's aggregate-signature secret key.
    pub bls_sk: [u8; 32],
}

} // verus!
