//! The mock backend: the authoritative store of every identity's coin
//! ledger and authorization grants. It processes serialized requests into
//! serialized responses; malformed input produces an error response, never
//! a crash.

use vstd::prelude::*;

use crate::auth;
use crate::auth::{keys_insert, keys_remove, lookup, AuthV};
use crate::errors::VaultError;
use crate::ledger::{ledger_credit, ledger_debit, CoinBalance, LedgerV};
use crate::messages::{parse_req, resp_bytes, resp_wf, ReqV, Request, RespV, Response};
use crate::types::{AppPermissions, Coins, PublicKey, XorName};

verus! {

/// Configuration the vault is constructed with.
#[derive(Clone, Copy, Debug)]
pub struct Config {
    /// Developer options, absent in ordinary use.
    pub dev: Option<DevConfig>,
}

/// Developer options.
#[derive(Clone, Copy, Debug)]
pub struct DevConfig {
    /// Whether per-account mutation caps are waived.
    pub mock_unlimited_mutations: bool,
}

/// State held for one identity: its ledger and its authorization store.
pub struct EntryV {
    /// The identity's coin ledger.
    pub ledger: LedgerV,
    /// The identity's authorization store.
    pub auth: AuthV,
}

/// Mathematical state of the vault: per-identity state keyed by identity.
pub type VaultV = Map<Seq<u8>, EntryV>;

/// The state an identity starts from: an empty ledger owned by the key
/// the identity names, and an empty authorization store at version 0.
pub open spec fn default_entry(id: Seq<u8>) -> EntryV {
    EntryV {
        ledger: LedgerV { owner: id, value: 0, credits: Seq::empty() },
        auth: AuthV { keys: Seq::empty(), version: 0 },
    }
}

/// The state held for `id`, or the default when none is held yet:
/// per-identity state is created lazily on first use.
pub open spec fn entry_or_default(v: VaultV, id: Seq<u8>) -> EntryV {
    if v.contains_key(id) {
        v[id]
    } else {
        default_entry(id)
    }
}

/// One step of the vault: the state and response produced by processing
/// `r` on behalf of `caller`. Reads leave the state unchanged; a failed
/// mutation leaves it unchanged too.
pub open spec fn vault_step(v: VaultV, caller: Seq<u8>, r: ReqV) -> (VaultV, RespV) {
    let e = entry_or_default(v, caller);
    match r {
        ReqV::GetBalance => (v, RespV::Balance(e.ledger.value)),
        ReqV::CreditBalance { amount, transaction_id } => {
            if e.ledger.value + amount <= u64::MAX {
                (
                    v.insert(
                        caller,
                        EntryV {
                            ledger: ledger_credit(e.ledger, amount, transaction_id),
                            auth: e.auth,
                        },
                    ),
                    RespV::Success,
                )
            } else {
                (v, RespV::Failure(VaultError::BalanceOverflow))
            }
        },
        ReqV::DebitBalance { amount } => {
            if amount <= e.ledger.value {
                (
                    v.insert(caller, EntryV { ledger: ledger_debit(e.ledger, amount), auth: e.auth }),
                    RespV::Success,
                )
            } else {
                (v, RespV::Failure(VaultError::BalanceUnderflow))
            }
        },
        ReqV::InsAuthKey { key, permissions, version } => {
            if version == e.auth.version + 1 {
                (
                    v.insert(
                        caller,
                        EntryV {
                            ledger: e.ledger,
                            auth: AuthV { keys: keys_insert(e.auth.keys, key, permissions), version },
                        },
                    ),
                    RespV::Success,
                )
            } else {
                (v, RespV::Failure(VaultError::VersionConflict(e.auth.version)))
            }
        },
        ReqV::DelAuthKey { key, version } => {
            if version != e.auth.version + 1 {
                (v, RespV::Failure(VaultError::VersionConflict(e.auth.version)))
            } else if lookup(e.auth.keys, key) is None {
                (v, RespV::Failure(VaultError::KeyNotFound))
            } else {
                (
                    v.insert(
                        caller,
                        EntryV {
                            ledger: e.ledger,
                            auth: AuthV { keys: keys_remove(e.auth.keys, key), version },
                        },
                    ),
                    RespV::Success,
                )
            }
        },
        ReqV::ListAuthKeysAndVersion => (
            v,
            RespV::AuthKeysAndVersion { keys: e.auth.keys, version: e.auth.version },
        ),
    }
}

/// A step on behalf of one identity never touches another identity's
/// state.
pub proof fn lemma_step_isolates(v: VaultV, caller: Seq<u8>, r: ReqV, other: Seq<u8>)
    requires
        other != caller,
    ensures
        vault_step(v, caller, r).0.contains_key(other) == v.contains_key(other),
        entry_or_default(vault_step(v, caller, r).0, other) == entry_or_default(v, other),
{
}

/// Steps on behalf of two distinct identities commute: the final state is
/// the same in either order, and each sees the same response either way.
pub proof fn lemma_step_commutes(v: VaultV, c1: Seq<u8>, r1: ReqV, c2: Seq<u8>, r2: ReqV)
    requires
        c1 != c2,
    ensures
        vault_step(vault_step(v, c1, r1).0, c2, r2).0 =~= vault_step(
            vault_step(v, c2, r2).0,
            c1,
            r1,
        ).0,
        vault_step(vault_step(v, c1, r1).0, c2, r2).1 == vault_step(v, c2, r2).1,
        vault_step(vault_step(v, c2, r2).0, c1, r1).1 == vault_step(v, c1, r1).1,
{
    lemma_step_isolates(v, c1, r1, c2);
    lemma_step_isolates(v, c2, r2, c1);
}

/// The version counter of an identity's authorization store never
/// decreases and never skips a value, whatever request is processed.
pub proof fn lemma_auth_version_monotonic(v: VaultV, caller: Seq<u8>, r: ReqV)
    ensures
        ({
            let v0 = entry_or_default(v, caller).auth.version;
            let v1 = entry_or_default(vault_step(v, caller, r).0, caller).auth.version;
            v1 == v0 || v1 == v0 + 1
        }),
{
}

/// One identity's stored state.
struct VaultEntry {
    name: XorName,
    balance: CoinBalance,
    auth: auth::Account,
}

/// The view of one stored entry.
spec fn entry_view(e: VaultEntry) -> EntryV {
    EntryV { ledger: e.balance@, auth: e.auth@ }
}

/// The map a sequence of stored entries denotes; later entries override
/// earlier ones, and well-formed stores have no duplicates.
spec fn store_map(s: Seq<VaultEntry>) -> VaultV
    decreases s.len(),
{
    if s.len() == 0 {
        Map::empty()
    } else {
        store_map(s.drop_last()).insert(s.last().name@, entry_view(s.last()))
    }
}

/// No two stored entries share a name.
spec fn store_names_unique(s: Seq<VaultEntry>) -> bool {
    forall|i: int, j: int|
        0 <= i < j < s.len() ==> (#[trigger] s[i]).name@ != (#[trigger] s[j]).name@
}

/// What the store map holds: exactly the stored names, each mapped to its
/// entry's view.
proof fn lemma_store_map_lookup(s: Seq<VaultEntry>, k: Seq<u8>)
    requires
        store_names_unique(s),
    ensures
        store_map(s).contains_key(k) <==> exists|i: int| 0 <= i < s.len() && (#[trigger] s[i]).name@
            == k,
        forall|i: int|
            0 <= i < s.len() && (#[trigger] s[i]).name@ == k ==> store_map(s)[k] == entry_view(
                s[i],
            ),
    decreases s.len(),
{
    if s.len() > 0 {
        lemma_store_map_lookup(s.drop_last(), k);
        assert(forall|i: int| 0 <= i < s.len() - 1 ==> s.drop_last()[i] == s[i]);
        if s.last().name@ == k {
            assert(s[s.len() - 1].name@ == k);
        } else {
            if exists|i: int| 0 <= i < s.len() && (#[trigger] s[i]).name@ == k {
                let i = choose|i: int| 0 <= i < s.len() && (#[trigger] s[i]).name@ == k;
                assert(i < s.len() - 1);
                assert(s.drop_last()[i].name@ == k);
            }
        }
    }
}

/// Updating a stored entry in place, keeping its name, updates the map at
/// that name.
proof fn lemma_store_map_update(s: Seq<VaultEntry>, i: int, e: VaultEntry)
    requires
        store_names_unique(s),
        0 <= i < s.len(),
        e.name@ == s[i].name@,
    ensures
        store_map(s.update(i, e)) =~= store_map(s).insert(e.name@, entry_view(e)),
    decreases s.len(),
{
    let t = s.update(i, e);
    if i == s.len() - 1 {
        assert(t.drop_last() =~= s.drop_last());
        assert(t.last() == e);
    } else {
        assert(t.drop_last() =~= s.drop_last().update(i, e));
        assert(forall|a: int, b: int|
            0 <= a < b < s.len() - 1 ==> (#[trigger] s.drop_last()[a]).name@ != (
            #[trigger] s.drop_last()[b]).name@);
        lemma_store_map_update(s.drop_last(), i, e);
        assert(t.last() == s.last());
        assert(s[i].name@ != s.last().name@);
        assert(store_map(t) =~= store_map(s).insert(e.name@, entry_view(e)));
    }
}

/// Appending a fresh entry adds its name to the map.
proof fn lemma_store_map_push(s: Seq<VaultEntry>, e: VaultEntry)
    ensures
        store_map(s.push(e)) =~= store_map(s).insert(e.name@, entry_view(e)),
{
    assert(s.push(e).drop_last() =~= s);
    assert(s.push(e).last() == e);
}

/// The mock backend, holding every identity's ledger and authorization
/// store behind one authority.
pub struct Vault {
    store: Vec<VaultEntry>,
    config: Config,
}

impl View for Vault {
    type V = VaultV;

    closed spec fn view(&self) -> VaultV {
        store_map(self.store@)
    }
}

impl Vault {
    /// Stored entries are uniquely named and their ledgers well-formed.
    pub closed spec fn wf(&self) -> bool {
        store_names_unique(self.store@) && (forall|i: int|
            0 <= i < self.store@.len() ==> (#[trigger] self.store@[i]).balance.wf())
    }

    /// The configuration the vault was constructed with.
    pub closed spec fn spec_config(&self) -> Config {
        self.config
    }

    /// Creates an empty vault with the given configuration.
    pub fn new(config: Config) -> (r: Self)
        ensures
            r.wf(),
            r@ == Map::<Seq<u8>, EntryV>::empty(),
            r.spec_config() == config,
    {
        let r = Vault { store: Vec::new(), config };
        proof {
            assert(r@ =~= Map::<Seq<u8>, EntryV>::empty());
        }
        r
    }

    /// The configuration the vault was constructed with.
    pub fn config(&self) -> (r: &Config)
        ensures
            r == self.spec_config(),
    {
        &self.config
    }

    /// Clears all per-identity state; prior handles name nothing
    /// afterwards.
    pub fn reset(&mut self)
        ensures
            final(self).wf(),
            final(self)@ == Map::<Seq<u8>, EntryV>::empty(),
            final(self).spec_config() == old(self).spec_config(),
    {
        self.store.clear();
        proof {
            assert(self@ =~= Map::<Seq<u8>, EntryV>::empty());
        }
    }

    /// Index of the entry named `name`, if one is stored.
    fn find(&self, name: &XorName) -> (r: Option<usize>)
        requires
            self.wf(),
        ensures
            match r {
                Some(i) => i < self.store@.len() && self.store@[i as int].name@ == name@
                    && self@.contains_key(name@) && self@[name@] == entry_view(
                    self.store@[i as int],
                ),
                None => !self@.contains_key(name@),
            },
    {
        let n = self.store.len();
        let mut i: usize = 0;
        while i < n
            invariant
                self.wf(),
                n == self.store@.len(),
                i <= n,
                forall|j: int| 0 <= j < i ==> (#[trigger] self.store@[j]).name@ != name@,
            decreases n - i,
        {
            if crate::types::bytes32_eq(&self.store[i].name.0, &name.0) {
                proof {
                    lemma_store_map_lookup(self.store@, name@);
                }
                return Some(i);
            }
            i += 1;
        }
        proof {
            lemma_store_map_lookup(self.store@, name@);
        }
        None
    }

    /// Ensures an entry named `name` is stored, creating the default one
    /// when absent, and returns its index.
    fn ensure_entry(&mut self, name: &XorName) -> (i: usize)
        requires
            old(self).wf(),
        ensures
            final(self).wf(),
            final(self)@ == old(self)@.insert(name@, entry_or_default(old(self)@, name@)),
            final(self).spec_config() == old(self).spec_config(),
            i < final(self).store@.len(),
            final(self).store@[i as int].name@ == name@,
            entry_view(final(self).store@[i as int]) == entry_or_default(old(self)@, name@),
            store_names_unique(final(self).store@),
    {
        match self.find(name) {
            Some(i) => {
                proof {
                    assert(self@.insert(name@, self@[name@]) =~= self@);
                }
                i
            },
            None => {
                let i = self.store.len();
                let entry = VaultEntry {
                    name: XorName(name.0),
                    balance: CoinBalance::new(0, PublicKey(name.0)),
                    auth: auth::Account::new(),
                };
                proof {
                    assert(entry_view(entry) == default_entry(name@));
                    lemma_store_map_lookup(self.store@, name@);
                    lemma_store_map_push(self.store@, entry);
                }
                self.store.push(entry);
                proof {
                    let s = self.store@;
                    assert(forall|j: int| 0 <= j < s.len() - 1 ==> s[j] == old(self).store@[j]);
                    assert(forall|j: int|
                        0 <= j < s.len() - 1 ==> (#[trigger] s[j]).name@ != name@);
                    assert(s[s.len() - 1] == entry);
                }
                i
            },
        }
    }

    /// Processes one serialized request on behalf of `requester` into a
    /// serialized response: one step of [`vault_step`] when the bytes
    /// decode, and an unchanged state with a malformed-request response
    /// when they do not.
    pub fn process_request(&mut self, requester: &XorName, msg: &[u8]) -> (resp: Vec<u8>)
        requires
            old(self).wf(),
        ensures
            final(self).wf(),
            final(self).spec_config() == old(self).spec_config(),
            match parse_req(msg@) {
                Some(rv) => final(self)@ == vault_step(old(self)@, requester@, rv).0 && resp@
                    == resp_bytes(vault_step(old(self)@, requester@, rv).1) && resp_wf(
                    vault_step(old(self)@, requester@, rv).1,
                ),
                None => final(self)@ == old(self)@ && resp@ == resp_bytes(
                    RespV::Failure(VaultError::MalformedRequest),
                ),
            },
    {
        let req = match Request::from_bytes(msg) {
            Some(r) => r,
            None => {
                return Response::Failure(VaultError::MalformedRequest).to_bytes();
            },
        };
        let response = self.apply_request(requester, &req);
        response.to_bytes()
    }

    /// Applies one decoded request: exactly one step of [`vault_step`].
    pub fn apply_request(&mut self, requester: &XorName, req: &Request) -> (response: Response)
        requires
            old(self).wf(),
        ensures
            final(self).wf(),
            final(self).spec_config() == old(self).spec_config(),
            final(self)@ == vault_step(old(self)@, requester@, req@).0,
            response@ == vault_step(old(self)@, requester@, req@).1,
            resp_wf(response@),
    {
        let ghost v0 = self@;
        let ghost e0 = entry_or_default(v0, requester@);
        match req {
            Request::GetBalance => {
                let value = match self.find(requester) {
                    Some(i) => self.store[i].balance.balance(),
                    None => 0,
                };
                Response::Balance(value)
            },
            Request::CreditBalance { amount, transaction_id } => {
                let current = match self.find(requester) {
                    Some(i) => self.store[i].balance.balance(),
                    None => 0,
                };
                if *amount > u64::MAX - current {
                    Response::Failure(VaultError::BalanceOverflow)
                } else {
                    let i = self.ensure_entry(requester);
                    let ghost s1 = self.store@;
                    let entry = vstd::std_specs::vec::vec_index_mut(&mut self.store, i);
                    let r = entry.balance.credit_balance(*amount, *transaction_id);
                    proof {
                        let e_new = self.store@[i as int];
                        lemma_store_map_update(s1, i as int, e_new);
                        assert(entry_view(e_new) == EntryV {
                            ledger: ledger_credit(e0.ledger, *amount, *transaction_id),
                            auth: e0.auth,
                        });
                        assert(self@ =~= vault_step(v0, requester@, req@).0);
                    }
                    Response::Success
                }
            },
            Request::DebitBalance { amount } => {
                let current = match self.find(requester) {
                    Some(i) => self.store[i].balance.balance(),
                    None => 0,
                };
                if *amount > current {
                    Response::Failure(VaultError::BalanceUnderflow)
                } else {
                    let i = self.ensure_entry(requester);
                    let ghost s1 = self.store@;
                    let entry = vstd::std_specs::vec::vec_index_mut(&mut self.store, i);
                    let r = entry.balance.debit_balance(*amount);
                    proof {
                        let e_new = self.store@[i as int];
                        lemma_store_map_update(s1, i as int, e_new);
                        assert(entry_view(e_new) == EntryV {
                            ledger: ledger_debit(e0.ledger, *amount),
                            auth: e0.auth,
                        });
                        assert(self@ =~= vault_step(v0, requester@, req@).0);
                    }
                    Response::Success
                }
            },
            Request::InsAuthKey { key, permissions, version } => {
                let current = match self.find(requester) {
                    Some(i) => self.store[i].auth.version(),
                    None => 0,
                };
                if !(current < u64::MAX && *version == current + 1) {
                    Response::Failure(VaultError::VersionConflict(current))
                } else {
                    let i = self.ensure_entry(requester);
                    let ghost s1 = self.store@;
                    let entry = vstd::std_specs::vec::vec_index_mut(&mut self.store, i);
                    let r = entry.auth.ins_auth_key(*key, *permissions, *version);
                    proof {
                        let e_new = self.store@[i as int];
                        lemma_store_map_update(s1, i as int, e_new);
                        assert(entry_view(e_new) == EntryV {
                            ledger: e0.ledger,
                            auth: AuthV {
                                keys: keys_insert(e0.auth.keys, key@, *permissions),
                                version: *version,
                            },
                        });
                        assert(self@ =~= vault_step(v0, requester@, req@).0);
                    }
                    Response::Success
                }
            },
            Request::DelAuthKey { key, version } => {
                let (current, present) = match self.find(requester) {
                    Some(i) => (
                        self.store[i].auth.version(),
                        self.store[i].auth.contains_key(key),
                    ),
                    None => (0, false),
                };
                if !(current < u64::MAX && *version == current + 1) {
                    Response::Failure(VaultError::VersionConflict(current))
                } else if !present {
                    Response::Failure(VaultError::KeyNotFound)
                } else {
                    let i = self.ensure_entry(requester);
                    let ghost s1 = self.store@;
                    let entry = vstd::std_specs::vec::vec_index_mut(&mut self.store, i);
                    let r = entry.auth.del_auth_key(key, *version);
                    proof {
                        let e_new = self.store@[i as int];
                        lemma_store_map_update(s1, i as int, e_new);
                        assert(entry_view(e_new) == EntryV {
                            ledger: e0.ledger,
                            auth: AuthV { keys: keys_remove(e0.auth.keys, key@), version: *version },
                        });
                        assert(self@ =~= vault_step(v0, requester@, req@).0);
                    }
                    Response::Success
                }
            },
            Request::ListAuthKeysAndVersion => {
                match self.find(requester) {
                    Some(i) => {
                        let keys = copy_keys(self.store[i].auth.auth_keys());
                        let version = self.store[i].auth.version();
                        let key_count = keys.len();
                        proof {
                            assert(auth::keys_view(keys@).len() == key_count);
                            assert(forall|j: int|
                                0 <= j < auth::keys_view(keys@).len() ==> (#[trigger] auth::keys_view(
                                    keys@,
                                )[j]).0.len() == 32);
                        }
                        Response::AuthKeysAndVersion { keys, version }
                    },
                    None => {
                        let keys: Vec<(PublicKey, AppPermissions)> = Vec::new();
                        proof {
                            assert(auth::keys_view(keys@) =~= Seq::<(
                                Seq<u8>,
                                AppPermissions,
                            )>::empty());
                        }
                        Response::AuthKeysAndVersion { keys, version: 0 }
                    },
                }
            },
        }
    }

    /// Credits `amount` directly to the balance named `name`, for seeding
    /// fixtures; the identity must already hold a balance.
    pub fn mock_increment_balance(&mut self, coin_balance_name: &XorName, amount: Coins) -> (r:
        Result<(), VaultError>)
        requires
            old(self).wf(),
        ensures
            final(self).wf(),
            final(self).spec_config() == old(self).spec_config(),
            !old(self)@.contains_key(coin_balance_name@) ==> r == Err::<(), VaultError>(
                VaultError::NoSuchBalance,
            ) && final(self)@ == old(self)@,
            old(self)@.contains_key(coin_balance_name@) && old(self)@[coin_balance_name@].ledger.value
                + amount > u64::MAX ==> r == Err::<(), VaultError>(VaultError::BalanceOverflow)
                && final(self)@ == old(self)@,
            old(self)@.contains_key(coin_balance_name@) && old(self)@[coin_balance_name@].ledger.value
                + amount <= u64::MAX ==> r is Ok && final(self)@ == old(self)@.insert(
                coin_balance_name@,
                EntryV {
                    ledger: ledger_credit(old(self)@[coin_balance_name@].ledger, amount, 0),
                    auth: old(self)@[coin_balance_name@].auth,
                },
            ),
    {
        let ghost v0 = self@;
        let i = match self.find(coin_balance_name) {
            Some(i) => i,
            None => {
                return Err(VaultError::NoSuchBalance);
            },
        };
        let current = self.store[i].balance.balance();
        if amount > u64::MAX - current {
            return Err(VaultError::BalanceOverflow);
        }
        let ghost s1 = self.store@;
        let entry = vstd::std_specs::vec::vec_index_mut(&mut self.store, i);
        let r = entry.balance.credit_balance(amount, 0);
        proof {
            let e_new = self.store@[i as int];
            lemma_store_map_update(s1, i as int, e_new);
        }
        Ok(())
    }

    /// Creates (or re-creates) the balance owned by `owner` with the
    /// given starting amount, bypassing normal validation, for seeding
    /// fixtures. Authorization state already held for the identity is
    /// kept.
    pub fn mock_create_balance(&mut self, owner: PublicKey, amount: Coins)
        requires
            old(self).wf(),
        ensures
            final(self).wf(),
            final(self).spec_config() == old(self).spec_config(),
            final(self)@ == old(self)@.insert(
                owner@,
                EntryV {
                    ledger: LedgerV { owner: owner@, value: amount, credits: Seq::empty() },
                    auth: entry_or_default(old(self)@, owner@).auth,
                },
            ),
    {
        let ghost v0 = self@;
        let name = owner.into_name();
        let i = self.ensure_entry(&name);
        let ghost s1 = self.store@;
        let entry = vstd::std_specs::vec::vec_index_mut(&mut self.store, i);
        entry.balance = CoinBalance::new(amount, owner);
        proof {
            let e_new = self.store@[i as int];
            lemma_store_map_update(s1, i as int, e_new);
            assert(self@ =~= v0.insert(
                owner@,
                EntryV {
                    ledger: LedgerV { owner: owner@, value: amount, credits: Seq::empty() },
                    auth: entry_or_default(v0, owner@).auth,
                },
            ));
        }
    }
}

/// Copies a key vector.
fn copy_keys(v: &Vec<(PublicKey, AppPermissions)>) -> (r: Vec<(PublicKey, AppPermissions)>)
    ensures
        r@ == v@,
{
    let n = v.len();
    let mut r: Vec<(PublicKey, AppPermissions)> = Vec::new();
    let mut i: usize = 0;
    while i < n
        invariant
            n == v@.len(),
            i <= n,
            r@ == v@.subrange(0, i as int),
        decreases n - i,
    {
        r.push(v[i]);
        proof {
            assert(r@ =~= v@.subrange(0, i + 1));
        }
        i += 1;
    }
    proof {
        assert(r@ =~= v@);
    }
    r
}

} // verus!
