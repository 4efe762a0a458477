//! Per-identity authorization store: a mapping from application key to
//! permission grant, guarded by a strictly increasing version counter.
//!
//! A mutation succeeds only if the caller-supplied expected version equals
//! the current version plus one; success sets the stored version to exactly
//! that value. This compare-and-set counter is the sole concurrency-control
//! mechanism standing in for a consensus-enforced ordering.

use vstd::prelude::*;

use crate::errors::VaultError;
use crate::types::{bytes32_eq, AppPermissions, PublicKey};

verus! {

/// An ordered association of application keys to permissions; a key occurs
/// at most once in well-formed stores, and lookups take the first match.
pub type KeySeq = Seq<(Seq<u8>, AppPermissions)>;

/// Mathematical state of an authorization store.
pub struct AuthV {
    /// The granted keys, in insertion order.
    pub keys: KeySeq,
    /// The version counter; starts at 0 and never skips a value.
    pub version: u64,
}

/// Index of the first entry for `k`, or -1 when `k` is absent.
pub open spec fn index_of(s: KeySeq, k: Seq<u8>) -> int
    decreases s.len(),
{
    if s.len() == 0 {
        -1
    } else if s[0].0 == k {
        0
    } else {
        let r = index_of(s.drop_first(), k);
        if r == -1 {
            -1
        } else {
            r + 1
        }
    }
}

/// The permissions granted to `k`, if any.
pub open spec fn lookup(s: KeySeq, k: Seq<u8>) -> Option<AppPermissions> {
    if index_of(s, k) >= 0 {
        Some(s[index_of(s, k)].1)
    } else {
        None
    }
}

/// The key sequence after granting `p` to `k`: an existing entry is
/// overwritten in place, a new key is appended.
pub open spec fn keys_insert(s: KeySeq, k: Seq<u8>, p: AppPermissions) -> KeySeq {
    if index_of(s, k) >= 0 {
        s.update(index_of(s, k), (k, p))
    } else {
        s.push((k, p))
    }
}

/// The key sequence after revoking `k`.
pub open spec fn keys_remove(s: KeySeq, k: Seq<u8>) -> KeySeq
    recommends
        index_of(s, k) >= 0,
{
    s.remove(index_of(s, k))
}

/// `index_of` returns -1 or a position holding `k`, and no earlier
/// position holds `k`.
pub proof fn lemma_index_of(s: KeySeq, k: Seq<u8>)
    ensures
        -1 <= index_of(s, k) < s.len(),
        index_of(s, k) >= 0 ==> s[index_of(s, k)].0 == k,
        forall|j: int| 0 <= j < s.len() && s[j].0 == k ==> index_of(s, k) >= 0,
        forall|j: int| 0 <= j < index_of(s, k) ==> s[j].0 != k,
        index_of(s, k) == -1 ==> forall|j: int| 0 <= j < s.len() ==> s[j].0 != k,
    decreases s.len(),
{
    if s.len() > 0 && s[0].0 != k {
        lemma_index_of(s.drop_first(), k);
        assert(forall|j: int| 1 <= j < s.len() ==> s[j] == s.drop_first()[j - 1]);
    }
}

/// When position `i` holds `k` and no earlier position does, `index_of`
/// finds exactly `i`.
pub proof fn lemma_index_of_unique(s: KeySeq, k: Seq<u8>, i: int)
    requires
        0 <= i < s.len(),
        s[i].0 == k,
        forall|j: int| 0 <= j < i ==> s[j].0 != k,
    ensures
        index_of(s, k) == i,
    decreases s.len(),
{
    if i > 0 {
        assert(forall|j: int| 0 <= j < s.len() - 1 ==> s.drop_first()[j] == s[j + 1]);
        lemma_index_of_unique(s.drop_first(), k, i - 1);
    }
}

/// The view of an executable key vector.
pub open spec fn keys_view(s: Seq<(PublicKey, AppPermissions)>) -> KeySeq {
    Seq::new(s.len(), |i: int| (s[i].0@, s[i].1))
}

/// Authorization state of one identity: granted application keys and the
/// version counter that guards them.
pub struct Account {
    auth_keys: Vec<(PublicKey, AppPermissions)>,
    version: u64,
}

impl View for Account {
    type V = AuthV;

    closed spec fn view(&self) -> AuthV {
        AuthV { keys: keys_view(self.auth_keys@), version: self.version }
    }
}

impl Account {
    /// Creates an empty store at version 0.
    pub fn new() -> (r: Self)
        ensures
            r@.keys == Seq::<(Seq<u8>, AppPermissions)>::empty(),
            r@.version == 0,
    {
        let r = Account { auth_keys: Vec::new(), version: 0 };
        proof {
            assert(r@.keys =~= Seq::<(Seq<u8>, AppPermissions)>::empty());
        }
        r
    }

    /// The current version of the store.
    pub fn version(&self) -> (r: u64)
        ensures
            r == self@.version,
    {
        self.version
    }

    /// The granted keys, in insertion order.
    pub fn auth_keys(&self) -> (r: &Vec<(PublicKey, AppPermissions)>)
        ensures
            keys_view(r@) == self@.keys,
    {
        &self.auth_keys
    }

    /// Index of the first stored entry for `key`, if any.
    fn find(&self, key: &PublicKey) -> (r: Option<usize>)
        ensures
            match r {
                Some(i) => i < self@.keys.len() && index_of(self@.keys, key@) == i,
                None => index_of(self@.keys, key@) == -1,
            },
    {
        let n = self.auth_keys.len();
        let mut i: usize = 0;
        while i < n
            invariant
                n == self.auth_keys.len(),
                i <= n,
                forall|j: int| 0 <= j < i ==> self@.keys[j].0 != key@,
            decreases n - i,
        {
            if bytes32_eq(&self.auth_keys[i].0 .0, &key.0) {
                proof {
                    lemma_index_of_unique(self@.keys, key@, i as int);
                }
                return Some(i);
            }
            i += 1;
        }
        proof {
            lemma_index_of(self@.keys, key@);
        }
        None
    }

    /// Whether `key` currently holds a grant.
    pub fn contains_key(&self, key: &PublicKey) -> (r: bool)
        ensures
            r == (lookup(self@.keys, key@) is Some),
    {
        proof {
            lemma_index_of(self@.keys, key@);
        }
        self.find(key).is_some()
    }

    /// Grants `permissions` to `key` when `version` is exactly one more
    /// than the current version; otherwise fails with a conflict carrying
    /// the current version, leaving the store unchanged.
    pub fn ins_auth_key(&mut self, key: PublicKey, permissions: AppPermissions, version: u64) -> (r:
        Result<(), VaultError>)
        ensures
            version == old(self)@.version + 1 ==> r is Ok && final(self)@.version == version
                && final(self)@.keys == keys_insert(old(self)@.keys, key@, permissions),
            version != old(self)@.version + 1 ==> r == Err::<(), VaultError>(
                VaultError::VersionConflict(old(self)@.version),
            ) && final(self)@ == old(self)@,
    {
        match self.validate_version(version) {
            Ok(()) => {},
            Err(e) => {
                return Err(e);
            },
        }
        match self.find(&key) {
            Some(i) => {
                self.auth_keys[i] = (key, permissions);
                proof {
                    assert(self@.keys =~= keys_insert(old(self)@.keys, key@, permissions));
                }
            },
            None => {
                self.auth_keys.push((key, permissions));
                proof {
                    assert(self@.keys =~= keys_insert(old(self)@.keys, key@, permissions));
                }
            },
        }
        self.version = version;
        Ok(())
    }

    /// Revokes `key` when it is present and `version` is exactly one more
    /// than the current version. A wrong version fails with a conflict
    /// carrying the current version; an absent key is a distinct failure.
    /// Either failure leaves the store unchanged.
    pub fn del_auth_key(&mut self, key: &PublicKey, version: u64) -> (r: Result<(), VaultError>)
        ensures
            version != old(self)@.version + 1 ==> r == Err::<(), VaultError>(
                VaultError::VersionConflict(old(self)@.version),
            ) && final(self)@ == old(self)@,
            version == old(self)@.version + 1 && lookup(old(self)@.keys, key@) is None ==> r
                == Err::<(), VaultError>(VaultError::KeyNotFound) && final(self)@ == old(self)@,
            version == old(self)@.version + 1 && lookup(old(self)@.keys, key@) is Some ==> r is Ok
                && final(self)@.version == version && final(self)@.keys == keys_remove(
                old(self)@.keys,
                key@,
            ),
    {
        match self.validate_version(version) {
            Ok(()) => {},
            Err(e) => {
                return Err(e);
            },
        }
        match self.find(key) {
            Some(i) => {
                let _ = self.auth_keys.remove(i);
                self.version = version;
                proof {
                    assert(self@.keys =~= keys_remove(old(self)@.keys, key@));
                }
                Ok(())
            },
            None => Err(VaultError::KeyNotFound),
        }
    }

    /// Accepts exactly the successor of the current version.
    fn validate_version(&self, version: u64) -> (r: Result<(), VaultError>)
        ensures
            version == self@.version + 1 ==> r is Ok,
            version != self@.version + 1 ==> r == Err::<(), VaultError>(
                VaultError::VersionConflict(self@.version),
            ),
    {
        if self.version < u64::MAX && version == self.version + 1 {
            Ok(())
        } else {
            Err(VaultError::VersionConflict(self.version))
        }
    }
}

} // verus!
