//! Tests of the mock vault: serialized request processing, the
//! administrative seeding entry points, and isolation between identities.

use safe_core::errors::VaultError;
use safe_core::messages::{Request, Response};
use safe_core::types::{AppPermissions, PublicKey, XorName};
use safe_core::vault::{Config, Vault};

fn empty_vault() -> Vault {
    Vault::new(Config { dev: None })
}

fn roundtrip(vault: &mut Vault, id: &XorName, req: &Request) -> Response {
    let bytes = req.to_bytes();
    let resp = vault.process_request(id, &bytes);
    Response::from_bytes(&resp).unwrap()
}

// Credits and debits through serialized requests act on the caller's
// ledger.
#[test]
fn vault_processes_ledger_requests() {
    let mut vault = empty_vault();
    let id = XorName([5u8; 32]);

    let r = roundtrip(&mut vault, &id, &Request::GetBalance);
    assert!(matches!(r, Response::Balance(0)));

    let r = roundtrip(
        &mut vault,
        &id,
        &Request::CreditBalance { amount: 10, transaction_id: 1 },
    );
    assert!(matches!(r, Response::Success));

    let r = roundtrip(&mut vault, &id, &Request::GetBalance);
    assert!(matches!(r, Response::Balance(10)));

    let r = roundtrip(&mut vault, &id, &Request::DebitBalance { amount: 4 });
    assert!(matches!(r, Response::Success));

    let r = roundtrip(&mut vault, &id, &Request::DebitBalance { amount: 100 });
    assert!(matches!(
        r,
        Response::Failure(VaultError::BalanceUnderflow)
    ));

    let r = roundtrip(&mut vault, &id, &Request::GetBalance);
    assert!(matches!(r, Response::Balance(6)));
}

// Authorization requests follow the version-guarded store semantics.
#[test]
fn vault_processes_auth_requests() {
    let mut vault = empty_vault();
    let id = XorName([6u8; 32]);
    let app = PublicKey([0xab; 32]);
    let perms = AppPermissions { transfer_coins: true };

    let r = roundtrip(
        &mut vault,
        &id,
        &Request::InsAuthKey { key: app, permissions: perms, version: 1 },
    );
    assert!(matches!(r, Response::Success));

    let r = roundtrip(
        &mut vault,
        &id,
        &Request::InsAuthKey { key: app, permissions: perms, version: 1 },
    );
    assert!(matches!(
        r,
        Response::Failure(VaultError::VersionConflict(1))
    ));

    let r = roundtrip(&mut vault, &id, &Request::ListAuthKeysAndVersion);
    match r {
        Response::AuthKeysAndVersion { keys, version } => {
            assert_eq!(version, 1);
            assert_eq!(keys.len(), 1);
            assert_eq!(keys[0].0, app);
            assert!(keys[0].1.transfer_coins);
        }
        _ => panic!("expected the auth keys listing"),
    }

    let r = roundtrip(
        &mut vault,
        &id,
        &Request::DelAuthKey { key: PublicKey([0xcd; 32]), version: 2 },
    );
    assert!(matches!(r, Response::Failure(VaultError::KeyNotFound)));

    let r = roundtrip(&mut vault, &id, &Request::DelAuthKey { key: app, version: 2 });
    assert!(matches!(r, Response::Success));

    let r = roundtrip(&mut vault, &id, &Request::ListAuthKeysAndVersion);
    match r {
        Response::AuthKeysAndVersion { keys, version } => {
            assert_eq!(version, 2);
            assert_eq!(keys.len(), 0);
        }
        _ => panic!("expected the auth keys listing"),
    }
}

// Malformed bytes produce an error response and leave the state alone.
#[test]
fn vault_rejects_malformed_requests() {
    let mut vault = empty_vault();
    let id = XorName([7u8; 32]);
    roundtrip(
        &mut vault,
        &id,
        &Request::CreditBalance { amount: 3, transaction_id: 1 },
    );

    let resp = vault.process_request(&id, &[99, 1, 2, 3]);
    let r = Response::from_bytes(&resp).unwrap();
    assert!(matches!(
        r,
        Response::Failure(VaultError::MalformedRequest)
    ));

    let resp = vault.process_request(&id, &[]);
    let r = Response::from_bytes(&resp).unwrap();
    assert!(matches!(
        r,
        Response::Failure(VaultError::MalformedRequest)
    ));

    let r = roundtrip(&mut vault, &id, &Request::GetBalance);
    assert!(matches!(r, Response::Balance(3)));
}

// The administrative entry points seed balances directly, and reset
// clears everything.
#[test]
fn vault_mock_seeding_and_reset() {
    let mut vault = empty_vault();
    let owner = PublicKey([8u8; 32]);
    let name = owner.into_name();

    let missing = vault.mock_increment_balance(&name, 5);
    assert_eq!(missing.unwrap_err(), VaultError::NoSuchBalance);

    vault.mock_create_balance(owner, 100);
    let r = roundtrip(&mut vault, &name, &Request::GetBalance);
    assert!(matches!(r, Response::Balance(100)));

    vault.mock_increment_balance(&name, 11).unwrap();
    let r = roundtrip(&mut vault, &name, &Request::GetBalance);
    assert!(matches!(r, Response::Balance(111)));

    let over = vault.mock_increment_balance(&name, u64::MAX);
    assert_eq!(over.unwrap_err(), VaultError::BalanceOverflow);

    vault.reset();
    let r = roundtrip(&mut vault, &name, &Request::GetBalance);
    assert!(matches!(r, Response::Balance(0)));
}

// Requests on behalf of two distinct identities never disturb each
// other, and either processing order reaches the same state.
#[test]
fn vault_isolates_identities() {
    let id_a = XorName([1u8; 32]);
    let id_b = XorName([2u8; 32]);
    let credit_a = Request::CreditBalance { amount: 10, transaction_id: 1 };
    let credit_b = Request::CreditBalance { amount: 20, transaction_id: 2 };

    let mut first = empty_vault();
    roundtrip(&mut first, &id_a, &credit_a);
    roundtrip(&mut first, &id_b, &credit_b);

    let mut second = empty_vault();
    roundtrip(&mut second, &id_b, &credit_b);
    roundtrip(&mut second, &id_a, &credit_a);

    for vault in [&mut first, &mut second] {
        let r = roundtrip(vault, &id_a, &Request::GetBalance);
        assert!(matches!(r, Response::Balance(10)));
        let r = roundtrip(vault, &id_b, &Request::GetBalance);
        assert!(matches!(r, Response::Balance(20)));
    }

    let bytes_a = Request::GetBalance.to_bytes();
    assert_eq!(
        first.process_request(&id_a, &bytes_a),
        second.process_request(&id_a, &bytes_a)
    );
}

// Typed requests and responses survive their canonical byte encodings.
#[test]
fn message_codec_round_trips() {
    let key = PublicKey([0x11; 32]);
    let requests = vec![
        Request::GetBalance,
        Request::CreditBalance { amount: 7, transaction_id: 9 },
        Request::DebitBalance { amount: 3 },
        Request::InsAuthKey {
            key,
            permissions: AppPermissions { transfer_coins: false },
            version: 4,
        },
        Request::DelAuthKey { key, version: 5 },
        Request::ListAuthKeysAndVersion,
    ];
    for req in &requests {
        let bytes = req.to_bytes();
        let back = Request::from_bytes(&bytes).unwrap();
        assert_eq!(bytes, back.to_bytes());
    }
    assert!(Request::from_bytes(&[]).is_none());
    assert!(Request::from_bytes(&[0]).is_none());
    assert!(Request::from_bytes(&[1, 1]).is_none());

    let responses = vec![
        Response::Success,
        Response::Balance(12),
        Response::AuthKeysAndVersion {
            keys: vec![(key, AppPermissions { transfer_coins: true })],
            version: 3,
        },
        Response::Failure(VaultError::VersionConflict(8)),
        Response::Failure(VaultError::MalformedRequest),
    ];
    for resp in &responses {
        let bytes = resp.to_bytes();
        let back = Response::from_bytes(&bytes).unwrap();
        assert_eq!(bytes, back.to_bytes());
    }
    assert!(Response::from_bytes(&[]).is_none());
    assert!(Response::from_bytes(&[7]).is_none());
}
