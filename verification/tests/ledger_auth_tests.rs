//! Tests of the coin ledger and the version-guarded authorization store.

use safe_core::auth::Account as AuthStore;
use safe_core::errors::VaultError;
use safe_core::ledger::CoinBalance;
use safe_core::types::{AppPermissions, PublicKey};

// From balance 0: two credits accumulate, a too-large debit fails and
// changes nothing, and the history is most-recent-first.
#[test]
fn ledger_scenario() {
    let owner = PublicKey([1u8; 32]);
    let mut balance = CoinBalance::new(0, owner);

    balance.credit_balance(10, 1).unwrap();
    assert_eq!(balance.balance(), 10);
    assert_eq!(balance.credits().len(), 1);
    assert_eq!(balance.credits()[0].transaction_id, 1);

    balance.credit_balance(5, 2).unwrap();
    assert_eq!(balance.balance(), 15);
    assert_eq!(balance.credits().len(), 2);
    assert_eq!(balance.credits()[0].transaction_id, 2);
    assert_eq!(balance.credits()[1].transaction_id, 1);

    let under = balance.debit_balance(20);
    assert_eq!(under.unwrap_err(), VaultError::BalanceUnderflow);
    assert_eq!(balance.balance(), 15);
    assert_eq!(balance.credits().len(), 2);

    balance.debit_balance(15).unwrap();
    assert_eq!(balance.balance(), 0);
    // A debit never touches the history.
    assert_eq!(balance.credits().len(), 2);
}

// The history holds at most 100 entries; the oldest is evicted first.
#[test]
fn ledger_history_evicts_oldest() {
    let mut balance = CoinBalance::new(0, PublicKey([2u8; 32]));
    for i in 1..=101u64 {
        balance.credit_balance(1, i).unwrap();
    }
    assert_eq!(balance.credits().len(), 100);
    assert_eq!(balance.credits()[0].transaction_id, 101);
    assert_eq!(balance.credits()[99].transaction_id, 2);
    assert_eq!(balance.balance(), 101);
}

// A credit that would overflow fails and leaves balance and history
// unchanged.
#[test]
fn ledger_credit_overflow_fails() {
    let mut balance = CoinBalance::new(u64::MAX - 4, PublicKey([3u8; 32]));
    balance.credit_balance(4, 1).unwrap();
    assert_eq!(balance.balance(), u64::MAX);

    let over = balance.credit_balance(1, 2);
    assert_eq!(over.unwrap_err(), VaultError::BalanceOverflow);
    assert_eq!(balance.balance(), u64::MAX);
    assert_eq!(balance.credits().len(), 1);
    assert_eq!(balance.credits()[0].transaction_id, 1);
}

// The owner key is fixed at creation.
#[test]
fn ledger_owner() {
    let owner = PublicKey([9u8; 32]);
    let balance = CoinBalance::new(7, owner);
    assert_eq!(*balance.owner(), owner);
    assert_eq!(balance.balance(), 7);
}

// From version 0: a grant succeeds only with expected version 1, a repeat
// conflicts, deletes follow the same rule, and a delete of an absent key
// is its own failure.
#[test]
fn authorization_cas_scenario() {
    let key_a = PublicKey([0xaa; 32]);
    let key_b = PublicKey([0xbb; 32]);
    let perms = AppPermissions { transfer_coins: true };

    let mut store = AuthStore::new();
    assert_eq!(store.version(), 0);

    store.ins_auth_key(key_a, perms, 1).unwrap();
    assert_eq!(store.version(), 1);

    let repeat = store.ins_auth_key(key_a, perms, 1);
    assert_eq!(repeat.unwrap_err(), VaultError::VersionConflict(1));
    assert_eq!(store.version(), 1);

    store.ins_auth_key(key_b, perms, 2).unwrap();
    assert_eq!(store.version(), 2);

    let stale = store.del_auth_key(&key_a, 4);
    assert_eq!(stale.unwrap_err(), VaultError::VersionConflict(2));
    assert_eq!(store.version(), 2);

    store.del_auth_key(&key_a, 3).unwrap();
    assert_eq!(store.version(), 3);

    let absent = store.del_auth_key(&key_a, 4);
    assert_eq!(absent.unwrap_err(), VaultError::KeyNotFound);
    assert_eq!(store.version(), 3);
}

// A re-grant overwrites the stored permissions in place.
#[test]
fn authorization_regrant_updates_permissions() {
    let key = PublicKey([0xcc; 32]);
    let mut store = AuthStore::new();
    store
        .ins_auth_key(key, AppPermissions { transfer_coins: false }, 1)
        .unwrap();
    store
        .ins_auth_key(key, AppPermissions { transfer_coins: true }, 2)
        .unwrap();

    let keys = store.auth_keys();
    assert_eq!(keys.len(), 1);
    assert_eq!(keys[0].0, key);
    assert!(keys[0].1.transfer_coins);
    assert!(store.contains_key(&key));
}
