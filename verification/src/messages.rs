//! The vault's wire format: requests addressed to the ledger and the
//! authorization store, responses carrying their results, and a canonical
//! byte encoding for each, with a proved round trip.

use vstd::prelude::*;

use crate::auth::{keys_view, KeySeq};
use crate::errors::VaultError;
use crate::types::{push_bytes, read_array_32, AppPermissions, Coins, PublicKey};
use vstd::bytes::{
    lemma_auto_spec_u64_to_from_le_bytes, spec_u64_from_le_bytes, spec_u64_to_le_bytes,
    u64_from_le_bytes, u64_to_le_bytes,
};

verus! {

/// A request addressed to one identity's ledger or authorization store.
#[derive(Clone, Debug)]
pub enum Request {
    /// Read the balance.
    GetBalance,
    /// Credit the balance and record the transaction.
    CreditBalance {
        /// The amount to credit.
        amount: Coins,
        /// The identifier of the carrying transaction.
        transaction_id: u64,
    },
    /// Debit the balance.
    DebitBalance {
        /// The amount to debit.
        amount: Coins,
    },
    /// Grant permissions to an application key at an expected version.
    InsAuthKey {
        /// The application key.
        key: PublicKey,
        /// The permissions to grant.
        permissions: AppPermissions,
        /// The expected next version.
        version: u64,
    },
    /// Revoke an application key at an expected version.
    DelAuthKey {
        /// The application key.
        key: PublicKey,
        /// The expected next version.
        version: u64,
    },
    /// Read the granted keys and the current version.
    ListAuthKeysAndVersion,
}

/// Mathematical shape of a request.
pub enum ReqV {
    /// Read the balance.
    GetBalance,
    /// Credit the balance and record the transaction.
    CreditBalance { amount: Coins, transaction_id: u64 },
    /// Debit the balance.
    DebitBalance { amount: Coins },
    /// Grant permissions to an application key at an expected version.
    InsAuthKey { key: Seq<u8>, permissions: AppPermissions, version: u64 },
    /// Revoke an application key at an expected version.
    DelAuthKey { key: Seq<u8>, version: u64 },
    /// Read the granted keys and the current version.
    ListAuthKeysAndVersion,
}

impl View for Request {
    type V = ReqV;

    open spec fn view(&self) -> ReqV {
        match *self {
            Request::GetBalance => ReqV::GetBalance,
            Request::CreditBalance { amount, transaction_id } => ReqV::CreditBalance {
                amount,
                transaction_id,
            },
            Request::DebitBalance { amount } => ReqV::DebitBalance { amount },
            Request::InsAuthKey { key, permissions, version } => ReqV::InsAuthKey {
                key: key@,
                permissions,
                version,
            },
            Request::DelAuthKey { key, version } => ReqV::DelAuthKey { key: key@, version },
            Request::ListAuthKeysAndVersion => ReqV::ListAuthKeysAndVersion,
        }
    }
}

/// A response from the vault.
#[derive(Clone, Debug)]
pub enum Response {
    /// The operation succeeded with nothing to return.
    Success,
    /// The current balance.
    Balance(Coins),
    /// The granted keys and the current version.
    AuthKeysAndVersion {
        /// The granted keys, in insertion order.
        keys: Vec<(PublicKey, AppPermissions)>,
        /// The current version of the authorization store.
        version: u64,
    },
    /// The operation failed.
    Failure(VaultError),
}

/// Mathematical shape of a response.
pub enum RespV {
    /// The operation succeeded with nothing to return.
    Success,
    /// The current balance.
    Balance(Coins),
    /// The granted keys and the current version.
    AuthKeysAndVersion { keys: KeySeq, version: u64 },
    /// The operation failed.
    Failure(VaultError),
}

impl View for Response {
    type V = RespV;

    open spec fn view(&self) -> RespV {
        match *self {
            Response::Success => RespV::Success,
            Response::Balance(v) => RespV::Balance(v),
            Response::AuthKeysAndVersion { keys, version } => RespV::AuthKeysAndVersion {
                keys: keys_view(keys@),
                version,
            },
            Response::Failure(e) => RespV::Failure(e),
        }
    }
}

/// The byte a permission grant encodes to.
pub open spec fn perm_byte(p: AppPermissions) -> u8 {
    if p.transfer_coins {
        1
    } else {
        0
    }
}

/// A request's shape is encodable: its key has the fixed width.
pub open spec fn req_wf(r: ReqV) -> bool {
    match r {
        ReqV::InsAuthKey { key, .. } => key.len() == 32,
        ReqV::DelAuthKey { key, .. } => key.len() == 32,
        _ => true,
    }
}

/// The canonical bytes of a request.
pub open spec fn req_bytes(r: ReqV) -> Seq<u8> {
    match r {
        ReqV::GetBalance => seq![1u8],
        ReqV::CreditBalance { amount, transaction_id } => seq![2u8] + spec_u64_to_le_bytes(amount)
            + spec_u64_to_le_bytes(transaction_id),
        ReqV::DebitBalance { amount } => seq![3u8] + spec_u64_to_le_bytes(amount),
        ReqV::InsAuthKey { key, permissions, version } => seq![4u8] + key + seq![
            perm_byte(permissions),
        ] + spec_u64_to_le_bytes(version),
        ReqV::DelAuthKey { key, version } => seq![5u8] + key + spec_u64_to_le_bytes(version),
        ReqV::ListAuthKeysAndVersion => seq![6u8],
    }
}

/// The request a byte sequence decodes to, if any.
pub open spec fn parse_req(b: Seq<u8>) -> Option<ReqV> {
    if b.len() == 0 {
        None
    } else if b[0] == 1 {
        if b.len() == 1 {
            Some(ReqV::GetBalance)
        } else {
            None
        }
    } else if b[0] == 2 {
        if b.len() == 17 {
            Some(
                ReqV::CreditBalance {
                    amount: spec_u64_from_le_bytes(b.subrange(1, 9)),
                    transaction_id: spec_u64_from_le_bytes(b.subrange(9, 17)),
                },
            )
        } else {
            None
        }
    } else if b[0] == 3 {
        if b.len() == 9 {
            Some(ReqV::DebitBalance { amount: spec_u64_from_le_bytes(b.subrange(1, 9)) })
        } else {
            None
        }
    } else if b[0] == 4 {
        if b.len() == 42 && b[33] <= 1 {
            Some(
                ReqV::InsAuthKey {
                    key: b.subrange(1, 33),
                    permissions: AppPermissions { transfer_coins: b[33] == 1 },
                    version: spec_u64_from_le_bytes(b.subrange(34, 42)),
                },
            )
        } else {
            None
        }
    } else if b[0] == 5 {
        if b.len() == 41 {
            Some(
                ReqV::DelAuthKey {
                    key: b.subrange(1, 33),
                    version: spec_u64_from_le_bytes(b.subrange(33, 41)),
                },
            )
        } else {
            None
        }
    } else if b[0] == 6 {
        if b.len() == 1 {
            Some(ReqV::ListAuthKeysAndVersion)
        } else {
            None
        }
    } else {
        None
    }
}

/// Decoding inverts encoding: every well-shaped request round-trips
/// through its canonical bytes.
pub proof fn lemma_req_round_trip(r: ReqV)
    requires
        req_wf(r),
    ensures
        parse_req(req_bytes(r)) == Some(r),
{
    lemma_auto_spec_u64_to_from_le_bytes();
    let b = req_bytes(r);
    match r {
        ReqV::GetBalance => {},
        ReqV::CreditBalance { amount, transaction_id } => {
            assert(b.subrange(1, 9) =~= spec_u64_to_le_bytes(amount));
            assert(b.subrange(9, 17) =~= spec_u64_to_le_bytes(transaction_id));
        },
        ReqV::DebitBalance { amount } => {
            assert(b.subrange(1, 9) =~= spec_u64_to_le_bytes(amount));
        },
        ReqV::InsAuthKey { key, permissions, version } => {
            assert(b.subrange(1, 33) =~= key);
            assert(b[33] == perm_byte(permissions));
            assert(b.subrange(34, 42) =~= spec_u64_to_le_bytes(version));
        },
        ReqV::DelAuthKey { key, version } => {
            assert(b.subrange(1, 33) =~= key);
            assert(b.subrange(33, 41) =~= spec_u64_to_le_bytes(version));
        },
        ReqV::ListAuthKeysAndVersion => {},
    }
}

impl Request {
    /// Encodes the request canonically.
    pub fn to_bytes(&self) -> (r: Vec<u8>)
        ensures
            r@ == req_bytes(self@),
    {
        let mut out: Vec<u8> = Vec::new();
        match self {
            Request::GetBalance => {
                out.push(1);
            },
            Request::CreditBalance { amount, transaction_id } => {
                out.push(2);
                let a = u64_to_le_bytes(*amount);
                push_bytes(&mut out, a.as_slice());
                let t = u64_to_le_bytes(*transaction_id);
                push_bytes(&mut out, t.as_slice());
            },
            Request::DebitBalance { amount } => {
                out.push(3);
                let a = u64_to_le_bytes(*amount);
                push_bytes(&mut out, a.as_slice());
            },
            Request::InsAuthKey { key, permissions, version } => {
                out.push(4);
                push_bytes(&mut out, key.0.as_slice());
                out.push(
                    if permissions.transfer_coins {
                        1
                    } else {
                        0
                    },
                );
                let v = u64_to_le_bytes(*version);
                push_bytes(&mut out, v.as_slice());
            },
            Request::DelAuthKey { key, version } => {
                out.push(5);
                push_bytes(&mut out, key.0.as_slice());
                let v = u64_to_le_bytes(*version);
                push_bytes(&mut out, v.as_slice());
            },
            Request::ListAuthKeysAndVersion => {
                out.push(6);
            },
        }
        proof {
            assert(out@ =~= req_bytes(self@));
        }
        out
    }

    /// Decodes a request from bytes; exactly the canonical encodings are
    /// accepted.
    pub fn from_bytes(b: &[u8]) -> (r: Option<Request>)
        ensures
            match r {
                Some(req) => parse_req(b@) == Some(req@),
                None => parse_req(b@) is None,
            },
    {
        let n = b.len();
        if n == 0 {
            return None;
        }
        let tag = *vstd::slice::slice_index_get(b, 0);
        if tag == 1 {
            if n == 1 {
                Some(Request::GetBalance)
            } else {
                None
            }
        } else if tag == 2 {
            if n == 17 {
                let amount = u64_from_le_bytes(vstd::slice::slice_subrange(b, 1, 9));
                let transaction_id = u64_from_le_bytes(vstd::slice::slice_subrange(b, 9, 17));
                Some(Request::CreditBalance { amount, transaction_id })
            } else {
                None
            }
        } else if tag == 3 {
            if n == 9 {
                let amount = u64_from_le_bytes(vstd::slice::slice_subrange(b, 1, 9));
                Some(Request::DebitBalance { amount })
            } else {
                None
            }
        } else if tag == 4 {
            if n == 42 && *vstd::slice::slice_index_get(b, 33) <= 1 {
                let key = PublicKey(read_array_32(b, 1));
                let permissions = AppPermissions {
                    transfer_coins: *vstd::slice::slice_index_get(b, 33) == 1,
                };
                let version = u64_from_le_bytes(vstd::slice::slice_subrange(b, 34, 42));
                Some(Request::InsAuthKey { key, permissions, version })
            } else {
                None
            }
        } else if tag == 5 {
            if n == 41 {
                let key = PublicKey(read_array_32(b, 1));
                let version = u64_from_le_bytes(vstd::slice::slice_subrange(b, 33, 41));
                Some(Request::DelAuthKey { key, version })
            } else {
                None
            }
        } else if tag == 6 {
            if n == 1 {
                Some(Request::ListAuthKeysAndVersion)
            } else {
                None
            }
        } else {
            None
        }
    }
}

/// The canonical bytes of a vault failure.
pub open spec fn err_bytes(e: VaultError) -> Seq<u8> {
    match e {
        VaultError::BalanceOverflow => seq![1u8],
        VaultError::BalanceUnderflow => seq![2u8],
        VaultError::VersionConflict(v) => seq![3u8] + spec_u64_to_le_bytes(v),
        VaultError::KeyNotFound => seq![4u8],
        VaultError::MalformedRequest => seq![5u8],
        VaultError::NoSuchBalance => seq![6u8],
    }
}

/// The canonical bytes of one granted key: the key then its permission
/// byte.
pub open spec fn entry_bytes(e: (Seq<u8>, AppPermissions)) -> Seq<u8> {
    e.0 + seq![perm_byte(e.1)]
}

/// The canonical bytes of a sequence of granted keys, in order.
pub open spec fn entries_bytes(keys: KeySeq) -> Seq<u8>
    decreases keys.len(),
{
    if keys.len() == 0 {
        Seq::empty()
    } else {
        entry_bytes(keys[0]) + entries_bytes(keys.drop_first())
    }
}

/// A response's shape is encodable: every key has the fixed width and the
/// key count fits the count field.
pub open spec fn resp_wf(r: RespV) -> bool {
    match r {
        RespV::AuthKeysAndVersion { keys, .. } => keys.len() <= u64::MAX && forall|i: int|
            0 <= i < keys.len() ==> (#[trigger] keys[i]).0.len() == 32,
        _ => true,
    }
}

/// The canonical bytes of a response.
pub open spec fn resp_bytes(r: RespV) -> Seq<u8> {
    match r {
        RespV::Success => seq![1u8],
        RespV::Balance(v) => seq![2u8] + spec_u64_to_le_bytes(v),
        RespV::AuthKeysAndVersion { keys, version } => seq![3u8] + spec_u64_to_le_bytes(
            keys.len() as u64,
        ) + entries_bytes(keys) + spec_u64_to_le_bytes(version),
        RespV::Failure(e) => seq![4u8] + err_bytes(e),
    }
}

/// The granted keys a byte sequence decodes to, if it holds exactly `n`
/// fixed-width entries.
pub open spec fn parse_entries(b: Seq<u8>, n: nat) -> Option<KeySeq>
    decreases n,
{
    if n == 0 {
        if b.len() == 0 {
            Some(Seq::empty())
        } else {
            None
        }
    } else if b.len() < 33 {
        None
    } else if b[32] > 1 {
        None
    } else {
        match parse_entries(b.skip(33), (n - 1) as nat) {
            Some(rest) => Some(
                seq![
                    (b.subrange(0, 32), AppPermissions { transfer_coins: b[32] == 1 }),
                ] + rest,
            ),
            None => None,
        }
    }
}

/// The failure a byte sequence decodes to, if any.
pub open spec fn parse_err(b: Seq<u8>) -> Option<VaultError> {
    if b.len() == 0 {
        None
    } else if b[0] == 1 {
        if b.len() == 1 {
            Some(VaultError::BalanceOverflow)
        } else {
            None
        }
    } else if b[0] == 2 {
        if b.len() == 1 {
            Some(VaultError::BalanceUnderflow)
        } else {
            None
        }
    } else if b[0] == 3 {
        if b.len() == 9 {
            Some(VaultError::VersionConflict(spec_u64_from_le_bytes(b.subrange(1, 9))))
        } else {
            None
        }
    } else if b[0] == 4 {
        if b.len() == 1 {
            Some(VaultError::KeyNotFound)
        } else {
            None
        }
    } else if b[0] == 5 {
        if b.len() == 1 {
            Some(VaultError::MalformedRequest)
        } else {
            None
        }
    } else if b[0] == 6 {
        if b.len() == 1 {
            Some(VaultError::NoSuchBalance)
        } else {
            None
        }
    } else {
        None
    }
}

/// The response a byte sequence decodes to, if any.
pub open spec fn parse_resp(b: Seq<u8>) -> Option<RespV> {
    if b.len() == 0 {
        None
    } else if b[0] == 1 {
        if b.len() == 1 {
            Some(RespV::Success)
        } else {
            None
        }
    } else if b[0] == 2 {
        if b.len() == 9 {
            Some(RespV::Balance(spec_u64_from_le_bytes(b.subrange(1, 9))))
        } else {
            None
        }
    } else if b[0] == 3 {
        if b.len() < 17 {
            None
        } else {
            let n = spec_u64_from_le_bytes(b.subrange(1, 9));
            if b.len() == 17 + 33 * n {
                match parse_entries(b.subrange(9, b.len() - 8), n as nat) {
                    Some(keys) => Some(
                        RespV::AuthKeysAndVersion {
                            keys,
                            version: spec_u64_from_le_bytes(
                                b.subrange(b.len() - 8, b.len() as int),
                            ),
                        },
                    ),
                    None => None,
                }
            } else {
                None
            }
        }
    } else if b[0] == 4 {
        match parse_err(b.skip(1)) {
            Some(e) => Some(RespV::Failure(e)),
            None => None,
        }
    } else {
        None
    }
}

/// Appending one entry to a key sequence appends its bytes.
pub proof fn lemma_entries_bytes_push(keys: KeySeq, e: (Seq<u8>, AppPermissions))
    ensures
        entries_bytes(keys.push(e)) == entries_bytes(keys) + entry_bytes(e),
    decreases keys.len(),
{
    if keys.len() == 0 {
        assert(keys.push(e)[0] == e);
        assert(keys.push(e).drop_first() =~= keys);
        assert(entries_bytes(keys.push(e)) == entry_bytes(e) + entries_bytes(keys));
        assert(entries_bytes(keys.push(e)) =~= entries_bytes(keys) + entry_bytes(e));
    } else {
        assert(keys.push(e).drop_first() =~= keys.drop_first().push(e));
        lemma_entries_bytes_push(keys.drop_first(), e);
        assert(keys.push(e)[0] == keys[0]);
        assert(entries_bytes(keys.push(e)) == entry_bytes(keys[0]) + (entries_bytes(
            keys.drop_first(),
        ) + entry_bytes(e)));
        assert(entries_bytes(keys) == entry_bytes(keys[0]) + entries_bytes(keys.drop_first()));
        assert(entries_bytes(keys.push(e)) =~= entries_bytes(keys) + entry_bytes(e));
    }
}

/// The total width of a sequence of encoded entries.
pub proof fn lemma_entries_bytes_len(keys: KeySeq)
    requires
        forall|i: int| 0 <= i < keys.len() ==> (#[trigger] keys[i]).0.len() == 32,
    ensures
        entries_bytes(keys).len() == 33 * keys.len(),
    decreases keys.len(),
{
    if keys.len() > 0 {
        lemma_entries_bytes_len(keys.drop_first());
    }
}

/// Decoding inverts encoding for granted keys.
pub proof fn lemma_entries_round_trip(keys: KeySeq)
    requires
        forall|i: int| 0 <= i < keys.len() ==> (#[trigger] keys[i]).0.len() == 32,
    ensures
        parse_entries(entries_bytes(keys), keys.len()) == Some(keys),
    decreases keys.len(),
{
    let b = entries_bytes(keys);
    if keys.len() == 0 {
        assert(parse_entries(b, 0) == Some(Seq::<(Seq<u8>, AppPermissions)>::empty()));
        assert(Seq::<(Seq<u8>, AppPermissions)>::empty() =~= keys);
    } else {
        let e = keys[0];
        lemma_entries_bytes_len(keys);
        assert(b =~= entry_bytes(e) + entries_bytes(keys.drop_first()));
        assert(b.len() >= 33);
        assert(b.subrange(0, 32) =~= e.0);
        assert(b[32] == perm_byte(e.1));
        assert(b.skip(33) =~= entries_bytes(keys.drop_first()));
        lemma_entries_round_trip(keys.drop_first());
        assert(seq![(b.subrange(0, 32), AppPermissions { transfer_coins: b[32] == 1 })]
            + keys.drop_first() =~= keys);
    }
}

/// Decoding inverts encoding: every well-shaped response round-trips
/// through its canonical bytes.
pub proof fn lemma_resp_round_trip(r: RespV)
    requires
        resp_wf(r),
    ensures
        parse_resp(resp_bytes(r)) == Some(r),
{
    lemma_auto_spec_u64_to_from_le_bytes();
    let b = resp_bytes(r);
    match r {
        RespV::Success => {},
        RespV::Balance(v) => {
            assert(b.subrange(1, 9) =~= spec_u64_to_le_bytes(v));
        },
        RespV::AuthKeysAndVersion { keys, version } => {
            lemma_entries_bytes_len(keys);
            assert(b.subrange(1, 9) =~= spec_u64_to_le_bytes(keys.len() as u64));
            let n = keys.len() as u64;
            assert(spec_u64_from_le_bytes(b.subrange(1, 9)) == n);
            assert(b.len() == 17 + 33 * n);
            assert(b.subrange(9, b.len() - 8) =~= entries_bytes(keys));
            lemma_entries_round_trip(keys);
            assert(b.subrange(b.len() - 8, b.len() as int) =~= spec_u64_to_le_bytes(version));
        },
        RespV::Failure(e) => {
            assert(b.skip(1) =~= err_bytes(e));
            match e {
                VaultError::VersionConflict(v) => {
                    assert(err_bytes(e).subrange(1, 9) =~= spec_u64_to_le_bytes(v));
                },
                _ => {},
            }
        },
    }
}

impl Response {
    /// Encodes the response canonically.
    pub fn to_bytes(&self) -> (r: Vec<u8>)
        ensures
            r@ == resp_bytes(self@),
    {
        let mut out: Vec<u8> = Vec::new();
        match self {
            Response::Success => {
                out.push(1);
            },
            Response::Balance(v) => {
                out.push(2);
                let a = u64_to_le_bytes(*v);
                push_bytes(&mut out, a.as_slice());
            },
            Response::AuthKeysAndVersion { keys, version } => {
                out.push(3);
                let count = u64_to_le_bytes(keys.len() as u64);
                push_bytes(&mut out, count.as_slice());
                let n = keys.len();
                let mut i: usize = 0;
                while i < n
                    invariant
                        n == keys@.len(),
                        i <= n,
                        out@ == seq![3u8] + spec_u64_to_le_bytes(n as u64) + entries_bytes(
                            keys_view(keys@).take(i as int),
                        ),
                    decreases n - i,
                {
                    let (k, p) = keys[i];
                    push_bytes(&mut out, k.0.as_slice());
                    out.push(
                        if p.transfer_coins {
                            1
                        } else {
                            0
                        },
                    );
                    proof {
                        lemma_entries_bytes_push(
                            keys_view(keys@).take(i as int),
                            (keys@[i as int].0@, keys@[i as int].1),
                        );
                        assert(keys_view(keys@).take(i + 1) =~= keys_view(keys@).take(
                            i as int,
                        ).push((keys@[i as int].0@, keys@[i as int].1)));
                        assert(out@ =~= seq![3u8] + spec_u64_to_le_bytes(n as u64) + entries_bytes(
                            keys_view(keys@).take(i + 1),
                        ));
                    }
                    i += 1;
                }
                let v = u64_to_le_bytes(*version);
                push_bytes(&mut out, v.as_slice());
                proof {
                    assert(keys_view(keys@).take(n as int) =~= keys_view(keys@));
                }
            },
            Response::Failure(e) => {
                out.push(4);
                match e {
                    VaultError::BalanceOverflow => {
                        out.push(1);
                    },
                    VaultError::BalanceUnderflow => {
                        out.push(2);
                    },
                    VaultError::VersionConflict(v) => {
                        out.push(3);
                        let a = u64_to_le_bytes(*v);
                        push_bytes(&mut out, a.as_slice());
                    },
                    VaultError::KeyNotFound => {
                        out.push(4);
                    },
                    VaultError::MalformedRequest => {
                        out.push(5);
                    },
                    VaultError::NoSuchBalance => {
                        out.push(6);
                    },
                }
            },
        }
        proof {
            assert(out@ =~= resp_bytes(self@));
        }
        out
    }

    /// Decodes a response from bytes; exactly the canonical encodings are
    /// accepted.
    pub fn from_bytes(b: &[u8]) -> (r: Option<Response>)
        ensures
            match r {
                Some(resp) => parse_resp(b@) == Some(resp@),
                None => parse_resp(b@) is None,
            },
    {
        let n = b.len();
        if n == 0 {
            return None;
        }
        let tag = *vstd::slice::slice_index_get(b, 0);
        if tag == 1 {
            if n == 1 {
                Some(Response::Success)
            } else {
                None
            }
        } else if tag == 2 {
            if n == 9 {
                let v = u64_from_le_bytes(vstd::slice::slice_subrange(b, 1, 9));
                Some(Response::Balance(v))
            } else {
                None
            }
        } else if tag == 3 {
            if n < 17 {
                return None;
            }
            let count = u64_from_le_bytes(vstd::slice::slice_subrange(b, 1, 9));
            if count > ((usize::MAX as u64) - 17) / 33 || n != 17 + 33 * (count as usize) {
                proof {
                    assert(b@.len() != 17 + 33 * spec_u64_from_le_bytes(b@.subrange(1, 9)));
                }
                return None;
            }
            let entries = parse_entries_exec(vstd::slice::slice_subrange(b, 9, n - 8), count);
            match entries {
                Some(keys) => {
                    let version = u64_from_le_bytes(vstd::slice::slice_subrange(b, n - 8, n));
                    Some(Response::AuthKeysAndVersion { keys, version })
                },
                None => None,
            }
        } else if tag == 4 {
            let rest = vstd::slice::slice_subrange(b, 1, n);
            proof {
                assert(rest@ =~= b@.skip(1));
            }
            match parse_err_exec(rest) {
                Some(e) => Some(Response::Failure(e)),
                None => None,
            }
        } else {
            None
        }
    }
}

/// Decodes exactly `n` granted keys from bytes.
fn parse_entries_exec(b: &[u8], n: u64) -> (r: Option<Vec<(PublicKey, AppPermissions)>>)
    ensures
        match r {
            Some(v) => parse_entries(b@, n as nat) == Some(keys_view(v@)),
            None => parse_entries(b@, n as nat) is None,
        },
    decreases n,
{
    if n == 0 {
        if b.len() == 0 {
            let v: Vec<(PublicKey, AppPermissions)> = Vec::new();
            proof {
                assert(keys_view(v@) =~= Seq::<(Seq<u8>, AppPermissions)>::empty());
            }
            Some(v)
        } else {
            None
        }
    } else if b.len() < 33 {
        None
    } else if *vstd::slice::slice_index_get(b, 32) > 1 {
        None
    } else {
        let key = PublicKey(read_array_32(b, 0));
        let transfer = *vstd::slice::slice_index_get(b, 32) == 1;
        let tail = vstd::slice::slice_subrange(b, 33, b.len());
        proof {
            assert(tail@ =~= b@.skip(33));
        }
        match parse_entries_exec(tail, n - 1) {
            Some(rest) => {
                let mut v = rest;
                v.insert(0, (key, AppPermissions { transfer_coins: transfer }));
                proof {
                    let whole = parse_entries(b@, n as nat);
                    assert(keys_view(v@) =~= seq![
                        (b@.subrange(0, 32), AppPermissions { transfer_coins: b@[32] == 1 }),
                    ] + keys_view(v@.drop_first()));
                    assert(v@.drop_first() =~= rest@);
                }
                Some(v)
            },
            None => None,
        }
    }
}

/// Decodes a vault failure from bytes.
fn parse_err_exec(b: &[u8]) -> (r: Option<VaultError>)
    ensures
        match r {
            Some(e) => parse_err(b@) == Some(e),
            None => parse_err(b@) is None,
        },
{
    let n = b.len();
    if n == 0 {
        return None;
    }
    let tag = *vstd::slice::slice_index_get(b, 0);
    if tag == 1 {
        if n == 1 {
            Some(VaultError::BalanceOverflow)
        } else {
            None
        }
    } else if tag == 2 {
        if n == 1 {
            Some(VaultError::BalanceUnderflow)
        } else {
            None
        }
    } else if tag == 3 {
        if n == 9 {
            let v = u64_from_le_bytes(vstd::slice::slice_subrange(b, 1, 9));
            Some(VaultError::VersionConflict(v))
        } else {
            None
        }
    } else if tag == 4 {
        if n == 1 {
            Some(VaultError::KeyNotFound)
        } else {
            None
        }
    } else if tag == 5 {
        if n == 1 {
            Some(VaultError::MalformedRequest)
        } else {
            None
        }
    } else if tag == 6 {
        if n == 1 {
            Some(VaultError::NoSuchBalance)
        } else {
            None
        }
    } else {
        None
    }
}

} // verus!
