//! The user's account record: the key bundle plus two private directory
//! references, persisted as an authenticated-encrypted blob under keys
//! derived from the user's credentials.

use vstd::prelude::*;

use crate::client_keys::ClientKeys;
use crate::crypto;
use crate::crypto::{spec_seal, KEY_BYTES, NONCE_BYTES};
use crate::errors::CoreError;
use crate::kdf;
use crate::kdf::spec_derive_key;
use crate::types::{bytes_eq, push_bytes, read_array_32, XorName, XOR_NAME_LEN};
use vstd::bytes::{lemma_auto_spec_u64_to_from_le_bytes, spec_u64_to_le_bytes, u64_to_le_bytes};

verus! {

/// The type tag shared by every private root directory.
pub const DIR_TAG: u64 = 15000;

/// Width in bytes of the derived key material: one symmetric key plus one
/// nonce.
pub const KEY_AND_NONCE_BYTES: usize = 56;

/// Width in bytes of a serialized account record.
pub const ACCOUNT_BYTES: usize = 353;

/// A reference to a private mutable directory: its network name and its
/// type tag, without its contents.
#[derive(Clone, Copy, Debug)]
pub struct MDataInfo {
    /// The name of the directory on the network.
    pub name: XorName,
    /// The directory's type tag.
    pub type_tag: u64,
}

impl MDataInfo {
    /// A directory reference with a freshly random name and the given tag.
    pub fn random_private(type_tag: u64) -> (r: Self)
        ensures
            r.type_tag == type_tag,
    {
        MDataInfo { name: XorName(crypto::random_bytes32()), type_tag }
    }
}

impl PartialEq for MDataInfo {
    fn eq(&self, other: &MDataInfo) -> bool {
        bytes_eq(self.name.0.as_slice(), other.name.0.as_slice()) && self.type_tag
            == other.type_tag
    }
}

impl vstd::std_specs::cmp::PartialEqSpecImpl for MDataInfo {
    open spec fn obeys_eq_spec() -> bool {
        true
    }

    open spec fn eq_spec(&self, other: &MDataInfo) -> bool {
        self.name@ == other.name@ && self.type_tag == other.type_tag
    }
}

/// The user's account record on the network.
#[derive(Clone, Copy, Debug)]
pub struct Account {
    /// The user's key bundle.
    pub maid_keys: ClientKeys,
    /// The user's access container; its name is the account's network
    /// identity, fixed at creation.
    pub access_container: MDataInfo,
    /// The user's configuration directory.
    pub config_root: MDataInfo,
    /// Set once all root and standard containers have been provisioned;
    /// flips at most once, at provisioning.
    pub root_dirs_created: bool,
}

impl PartialEq for Account {
    fn eq(&self, other: &Account) -> bool {
        self.maid_keys == other.maid_keys && self.access_container == other.access_container
            && self.config_root == other.config_root && self.root_dirs_created
            == other.root_dirs_created
    }
}

impl vstd::std_specs::cmp::PartialEqSpecImpl for Account {
    open spec fn obeys_eq_spec() -> bool {
        true
    }

    open spec fn eq_spec(&self, other: &Account) -> bool {
        let k = self.maid_keys;
        let o = other.maid_keys;
        k.sign_pk@ == o.sign_pk@ && k.sign_sk@ == o.sign_sk@ && k.enc_pk@ == o.enc_pk@ && k.enc_sk@
            == o.enc_sk@ && k.enc_key@ == o.enc_key@ && k.bls_pk@ == o.bls_pk@ && k.bls_sk@
            == o.bls_sk@ && self.access_container.name@ == other.access_container.name@
            && self.access_container.type_tag == other.access_container.type_tag
            && self.config_root.name@ == other.config_root.name@ && self.config_root.type_tag
            == other.config_root.type_tag && self.root_dirs_created == other.root_dirs_created
    }
}

/// The canonical bytes of a key bundle: its fixed-width fields in order.
pub open spec fn keys_bytes(k: ClientKeys) -> Seq<u8> {
    k.sign_pk@ + k.sign_sk@ + k.enc_pk@ + k.enc_sk@ + k.enc_key@ + k.bls_pk@ + k.bls_sk@
}

/// The canonical bytes of a directory reference.
pub open spec fn mdata_info_bytes(m: MDataInfo) -> Seq<u8> {
    m.name@ + spec_u64_to_le_bytes(m.type_tag)
}

/// The byte a flag serializes to.
pub open spec fn bool_byte(b: bool) -> u8 {
    if b {
        1
    } else {
        0
    }
}

/// The canonical bytes of an account record: identical values always
/// serialize to identical bytes.
pub open spec fn account_bytes(a: Account) -> Seq<u8> {
    keys_bytes(a.maid_keys) + mdata_info_bytes(a.access_container) + mdata_info_bytes(a.config_root)
        + seq![bool_byte(a.root_dirs_created)]
}

/// The symmetric key derived from the user's credentials.
pub open spec fn spec_enc_key(password: Seq<u8>, pin: Seq<u8>) -> Seq<u8> {
    spec_derive_key(password, pin, KEY_AND_NONCE_BYTES).subrange(0, KEY_BYTES as int)
}

/// The nonce derived from the user's credentials.
pub open spec fn spec_enc_nonce(password: Seq<u8>, pin: Seq<u8>) -> Seq<u8> {
    spec_derive_key(password, pin, KEY_AND_NONCE_BYTES).subrange(
        KEY_BYTES as int,
        KEY_AND_NONCE_BYTES as int,
    )
}

/// The network identity derived from a keyword and pin.
pub open spec fn spec_network_id(keyword: Seq<u8>, pin: Seq<u8>) -> Seq<u8> {
    spec_derive_key(keyword, pin, XOR_NAME_LEN)
}

/// Determinism of identity derivation: the network identity derived from
/// a keyword and pin is the same bytes on every derivation.
pub proof fn lemma_network_id_deterministic(
    r1: Seq<u8>,
    r2: Seq<u8>,
    keyword: Seq<u8>,
    pin: Seq<u8>,
)
    requires
        r1 == spec_network_id(keyword, pin),
        r2 == spec_network_id(keyword, pin),
    ensures
        r1 == r2,
{
}

impl Account {
    /// Creates a record around the given keys, with two freshly named
    /// private directories sharing the constant tag, and provisioning not
    /// yet done.
    pub fn new(maid_keys: ClientKeys) -> (r: Result<Self, CoreError>)
        ensures
            r matches Ok(a) ==> a.maid_keys == maid_keys && a.access_container.type_tag == DIR_TAG
                && a.config_root.type_tag == DIR_TAG && !a.root_dirs_created,
            r is Ok,
    {
        Ok(Account {
            maid_keys,
            access_container: MDataInfo::random_private(DIR_TAG),
            config_root: MDataInfo::random_private(DIR_TAG),
            root_dirs_created: false,
        })
    }

    /// Generates the account's network identity from the supplied
    /// credentials, deterministically.
    pub fn generate_network_id(keyword: &[u8], pin: &[u8]) -> (r: Result<XorName, CoreError>)
        ensures
            r is Ok,
            r matches Ok(x) ==> x@ == spec_network_id(keyword@, pin@),
    {
        let id = match kdf::derive_key(XOR_NAME_LEN, keyword, pin) {
            Ok(v) => v,
            Err(e) => {
                return Err(e);
            },
        };
        Ok(XorName(read_array_32(id.as_slice(), 0)))
    }

    /// Derives the symmetric key and nonce that protect the account blob
    /// from the supplied credentials, deterministically.
    pub fn generate_crypto_keys(password: &[u8], pin: &[u8]) -> (r: Result<
        (Vec<u8>, Vec<u8>),
        CoreError,
    >)
        ensures
            r is Ok,
            r matches Ok(kn) ==> kn.0@ == spec_enc_key(password@, pin@) && kn.1@ == spec_enc_nonce(
                password@,
                pin@,
            ) && kn.0@.len() == KEY_BYTES && kn.1@.len() == NONCE_BYTES,
    {
        let mut key = match kdf::derive_key(KEY_AND_NONCE_BYTES, password, pin) {
            Ok(v) => v,
            Err(e) => {
                return Err(e);
            },
        };
        let nonce = key.split_off(KEY_BYTES);
        Ok((key, nonce))
    }

    /// Serializes the record canonically: identical values yield identical
    /// bytes on every call.
    pub fn serialise(&self) -> (r: Vec<u8>)
        ensures
            r@ == account_bytes(*self),
            r@.len() == ACCOUNT_BYTES,
    {
        let mut out: Vec<u8> = Vec::new();
        push_bytes(&mut out, self.maid_keys.sign_pk.as_slice());
        push_bytes(&mut out, self.maid_keys.sign_sk.as_slice());
        push_bytes(&mut out, self.maid_keys.enc_pk.as_slice());
        push_bytes(&mut out, self.maid_keys.enc_sk.as_slice());
        push_bytes(&mut out, self.maid_keys.enc_key.as_slice());
        push_bytes(&mut out, self.maid_keys.bls_pk.as_slice());
        push_bytes(&mut out, self.maid_keys.bls_sk.as_slice());
        push_bytes(&mut out, self.access_container.name.0.as_slice());
        let tag1 = u64_to_le_bytes(self.access_container.type_tag);
        push_bytes(&mut out, tag1.as_slice());
        push_bytes(&mut out, self.config_root.name.0.as_slice());
        let tag2 = u64_to_le_bytes(self.config_root.type_tag);
        push_bytes(&mut out, tag2.as_slice());
        out.push(if self.root_dirs_created {
            1
        } else {
            0
        });
        proof {
            lemma_auto_spec_u64_to_from_le_bytes();
            assert(out@ =~= account_bytes(*self));
        }
        out
    }

    /// Reconstructs a record from its canonical bytes. Exactly the bytes
    /// that some record serializes to are accepted, and they yield that
    /// record.
    pub fn deserialise(encoded: &[u8]) -> (r: Result<Self, CoreError>)
        ensures
            r matches Ok(a) ==> account_bytes(a) == encoded@,
            forall|a: Account| account_bytes(a) == encoded@ ==> (r matches Ok(b) && b == a),
            r is Err ==> r == Err::<Account, CoreError>(CoreError::EncodeDecodeError),
    {
        proof {
            lemma_auto_spec_u64_to_from_le_bytes();
        }
        if encoded.len() != ACCOUNT_BYTES {
            proof {
                assert forall|a: Account| account_bytes(a) != encoded@ by {
                    assert(account_bytes(a).len() == ACCOUNT_BYTES);
                }
            }
            return Err(CoreError::EncodeDecodeError);
        }
        let flag_byte = *vstd::slice::slice_index_get(encoded, 352);
        if flag_byte > 1 {
            proof {
                assert forall|a: Account| account_bytes(a) != encoded@ by {
                    assert(account_bytes(a)[352] == bool_byte(a.root_dirs_created));
                    assert(bool_byte(a.root_dirs_created) <= 1);
                }
            }
            return Err(CoreError::EncodeDecodeError);
        }
        let maid_keys = ClientKeys {
            sign_pk: read_array_32(encoded, 0),
            sign_sk: read_array_64(encoded, 32),
            enc_pk: read_array_32(encoded, 96),
            enc_sk: read_array_32(encoded, 128),
            enc_key: read_array_32(encoded, 160),
            bls_pk: read_array_48(encoded, 192),
            bls_sk: read_array_32(encoded, 240),
        };
        let access_container = MDataInfo {
            name: XorName(read_array_32(encoded, 272)),
            type_tag: vstd::bytes::u64_from_le_bytes(vstd::slice::slice_subrange(encoded, 304, 312)),
        };
        let config_root = MDataInfo {
            name: XorName(read_array_32(encoded, 312)),
            type_tag: vstd::bytes::u64_from_le_bytes(vstd::slice::slice_subrange(encoded, 344, 352)),
        };
        let b = Account {
            maid_keys,
            access_container,
            config_root,
            root_dirs_created: flag_byte == 1,
        };
        proof {
            assert(spec_u64_to_le_bytes(b.access_container.type_tag) =~= encoded@.subrange(
                304,
                312,
            ));
            assert(spec_u64_to_le_bytes(b.config_root.type_tag) =~= encoded@.subrange(344, 352));
            assert(account_bytes(b) =~= encoded@);
            assert forall|a: Account| account_bytes(a) == encoded@ implies b == a by {
                lemma_account_bytes_injective(b, a);
            }
        }
        Ok(b)
    }

    /// Encrypts the record under keys derived from the user's credentials:
    /// the canonical serialization is sealed with authenticated symmetric
    /// encryption, and the ciphertext never equals the serialization.
    pub fn encrypt(&self, password: &[u8], pin: &[u8]) -> (r: Result<Vec<u8>, CoreError>)
        ensures
            r is Ok,
            r matches Ok(c) ==> c@ == spec_seal(
                account_bytes(*self),
                spec_enc_nonce(password@, pin@),
                spec_enc_key(password@, pin@),
            ) && c@ != account_bytes(*self),
    {
        let serialised_self = self.serialise();
        let (key, nonce) = match Self::generate_crypto_keys(password, pin) {
            Ok(kn) => kn,
            Err(e) => {
                return Err(e);
            },
        };
        let c = crypto::seal(serialised_self.as_slice(), nonce.as_slice(), key.as_slice());
        proof {
            assert(c@.len() != account_bytes(*self).len());
        }
        Ok(c)
    }

    /// Decrypts a record from an encrypted blob using the user's
    /// credentials. A blob sealed from a record under the same credentials
    /// yields exactly that record; a blob not sealed under these
    /// credentials fails as wrong credentials or corrupted data, the two
    /// being indistinguishable.
    pub fn decrypt(encrypted_self: &[u8], password: &[u8], pin: &[u8]) -> (r: Result<
        Self,
        CoreError,
    >)
        ensures
            r matches Ok(a) ==> encrypted_self@ == spec_seal(
                account_bytes(a),
                spec_enc_nonce(password@, pin@),
                spec_enc_key(password@, pin@),
            ),
            forall|a: Account|
                encrypted_self@ == spec_seal(
                    account_bytes(a),
                    spec_enc_nonce(password@, pin@),
                    spec_enc_key(password@, pin@),
                ) ==> (r matches Ok(b) && b == a),
            (forall|m: Seq<u8>|
                encrypted_self@ != spec_seal(
                    m,
                    spec_enc_nonce(password@, pin@),
                    spec_enc_key(password@, pin@),
                )) ==> r == Err::<Account, CoreError>(CoreError::SymmetricDecipherFailure),
    {
        let (key, nonce) = match Self::generate_crypto_keys(password, pin) {
            Ok(kn) => kn,
            Err(e) => {
                return Err(e);
            },
        };
        let decrypted_self = match crypto::open(encrypted_self, nonce.as_slice(), key.as_slice()) {
            Some(p) => p,
            None => {
                return Err(CoreError::SymmetricDecipherFailure);
            },
        };
        match Self::deserialise(decrypted_self.as_slice()) {
            Ok(a) => Ok(a),
            Err(_) => Err(CoreError::EncodeDecodeError),
        }
    }
}

/// Canonical serialization is injective: records with the same bytes are
/// the same record.
pub proof fn lemma_account_bytes_injective(a1: Account, a2: Account)
    requires
        account_bytes(a1) == account_bytes(a2),
    ensures
        a1 == a2,
{
    lemma_auto_spec_u64_to_from_le_bytes();
    let b1 = account_bytes(a1);
    let b2 = account_bytes(a2);
    assert(a1.maid_keys.sign_pk@ =~= b1.subrange(0, 32));
    assert(a2.maid_keys.sign_pk@ =~= b2.subrange(0, 32));
    assert(a1.maid_keys.sign_sk@ =~= b1.subrange(32, 96));
    assert(a2.maid_keys.sign_sk@ =~= b2.subrange(32, 96));
    assert(a1.maid_keys.enc_pk@ =~= b1.subrange(96, 128));
    assert(a2.maid_keys.enc_pk@ =~= b2.subrange(96, 128));
    assert(a1.maid_keys.enc_sk@ =~= b1.subrange(128, 160));
    assert(a2.maid_keys.enc_sk@ =~= b2.subrange(128, 160));
    assert(a1.maid_keys.enc_key@ =~= b1.subrange(160, 192));
    assert(a2.maid_keys.enc_key@ =~= b2.subrange(160, 192));
    assert(a1.maid_keys.bls_pk@ =~= b1.subrange(192, 240));
    assert(a2.maid_keys.bls_pk@ =~= b2.subrange(192, 240));
    assert(a1.maid_keys.bls_sk@ =~= b1.subrange(240, 272));
    assert(a2.maid_keys.bls_sk@ =~= b2.subrange(240, 272));
    assert(a1.access_container.name@ =~= b1.subrange(272, 304));
    assert(a2.access_container.name@ =~= b2.subrange(272, 304));
    assert(spec_u64_to_le_bytes(a1.access_container.type_tag) =~= b1.subrange(304, 312));
    assert(spec_u64_to_le_bytes(a2.access_container.type_tag) =~= b2.subrange(304, 312));
    assert(a1.config_root.name@ =~= b1.subrange(312, 344));
    assert(a2.config_root.name@ =~= b2.subrange(312, 344));
    assert(spec_u64_to_le_bytes(a1.config_root.type_tag) =~= b1.subrange(344, 352));
    assert(spec_u64_to_le_bytes(a2.config_root.type_tag) =~= b2.subrange(344, 352));
    assert(bool_byte(a1.root_dirs_created) == b1[352]);
    assert(bool_byte(a2.root_dirs_created) == b2[352]);
    assert(a1.maid_keys.sign_pk =~= a2.maid_keys.sign_pk);
    assert(a1.maid_keys.sign_sk =~= a2.maid_keys.sign_sk);
    assert(a1.maid_keys.enc_pk =~= a2.maid_keys.enc_pk);
    assert(a1.maid_keys.enc_sk =~= a2.maid_keys.enc_sk);
    assert(a1.maid_keys.enc_key =~= a2.maid_keys.enc_key);
    assert(a1.maid_keys.bls_pk =~= a2.maid_keys.bls_pk);
    assert(a1.maid_keys.bls_sk =~= a2.maid_keys.bls_sk);
    assert(a1.access_container.name.0 =~= a2.access_container.name.0);
    assert(a1.config_root.name.0 =~= a2.config_root.name.0);
    assert(spec_u64_to_le_bytes(a1.access_container.type_tag) == spec_u64_to_le_bytes(
        a2.access_container.type_tag,
    ));
    assert(a1.access_container.type_tag == a2.access_container.type_tag);
    assert(a1.config_root.type_tag == a2.config_root.type_tag);
    assert(a1.root_dirs_created == a2.root_dirs_created);
}

/// Copies 48 bytes of `b` starting at `off` into an array.
fn read_array_48(b: &[u8], off: usize) -> (r: [u8; 48])
    requires
        off + 48 <= b@.len(),
    ensures
        r@ == b@.subrange(off as int, off as int + 48),
{
    let n = b.len();
    let mut out = [0u8; 48];
    let mut i: usize = 0;
    while i < 48
        invariant
            n == b@.len(),
            off + 48 <= n,
            i <= 48,
            forall|j: int| 0 <= j < i ==> out@[j] == b@[off + j],
        decreases 48 - i,
    {
        out[i] = *vstd::slice::slice_index_get(b, off + i);
        i += 1;
    }
    proof {
        assert(out@ =~= b@.subrange(off as int, off as int + 48));
    }
    out
}

/// Copies 64 bytes of `b` starting at `off` into an array.
fn read_array_64(b: &[u8], off: usize) -> (r: [u8; 64])
    requires
        off + 64 <= b@.len(),
    ensures
        r@ == b@.subrange(off as int, off as int + 64),
{
    let n = b.len();
    let mut out = [0u8; 64];
    let mut i: usize = 0;
    while i < 64
        invariant
            n == b@.len(),
            off + 64 <= n,
            i <= 64,
            forall|j: int| 0 <= j < i ==> out@[j] == b@[off + j],
        decreases 64 - i,
    {
        out[i] = *vstd::slice::slice_index_get(b, off + i);
        i += 1;
    }
    proof {
        assert(out@ =~= b@.subrange(off as int, off as int + 64));
    }
    out
}

} // verus!
