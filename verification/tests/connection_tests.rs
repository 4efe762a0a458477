//! Tests of the connection manager: routing to the vault, request and
//! response interception, and the explicit signals for unimplemented
//! fault controls.

use safe_core::connection_manager::{
    unlimited_muts, ConnectionManager, RequestHook, ResponseHook,
};
use safe_core::errors::CoreError;
use safe_core::messages::{Request, Response};
use safe_core::types::PublicKey;
use safe_core::vault::{Config, DevConfig, Vault};

struct CannedResponse;

impl RequestHook for CannedResponse {
    fn handle(&mut self, _request: &Request) -> Option<Response> {
        Some(Response::Balance(42))
    }
}

struct PassThrough;

impl RequestHook for PassThrough {
    fn handle(&mut self, _request: &Request) -> Option<Response> {
        None
    }
}

struct BumpBalance;

impl ResponseHook for BumpBalance {
    fn rewrite(&mut self, response: Response) -> Response {
        match response {
            Response::Balance(v) => Response::Balance(v + 1),
            other => other,
        }
    }
}

fn manager_with_balance(owner: PublicKey, amount: u64) -> ConnectionManager {
    let vault = Vault::new(Config { dev: None });
    let mut manager = ConnectionManager::new(vault);
    manager.create_balance(owner, amount);
    manager
}

// Without hooks, send performs exactly one vault step and returns its
// response.
#[test]
fn send_dispatches_to_vault() {
    let owner = PublicKey([1u8; 32]);
    let mut manager = manager_with_balance(owner, 100);
    let id = owner.into_name();

    let r = manager.send(&id, &Request::GetBalance).unwrap();
    assert!(matches!(r, Response::Balance(100)));

    let r = manager
        .send(&id, &Request::CreditBalance { amount: 5, transaction_id: 1 })
        .unwrap();
    assert!(matches!(r, Response::Success));

    let r = manager.send(&id, &Request::GetBalance).unwrap();
    assert!(matches!(r, Response::Balance(105)));
}

// A request hook returning a synthetic response short-circuits send and
// leaves the vault untouched; removing it restores normal dispatch.
#[test]
fn request_hook_short_circuits_send() {
    let owner = PublicKey([2u8; 32]);
    let mut manager = manager_with_balance(owner, 100);
    let id = owner.into_name();

    manager.set_request_hook(Box::new(CannedResponse));
    let r = manager
        .send(&id, &Request::CreditBalance { amount: 50, transaction_id: 1 })
        .unwrap();
    assert!(matches!(r, Response::Balance(42)));

    manager.remove_request_hook();
    let r = manager.send(&id, &Request::GetBalance).unwrap();
    assert!(matches!(r, Response::Balance(100)));
}

// A request hook that declines lets dispatch proceed normally.
#[test]
fn declining_request_hook_dispatches() {
    let owner = PublicKey([3u8; 32]);
    let mut manager = manager_with_balance(owner, 77);
    let id = owner.into_name();

    manager.set_request_hook(Box::new(PassThrough));
    let r = manager.send(&id, &Request::GetBalance).unwrap();
    assert!(matches!(r, Response::Balance(77)));
}

// A response hook rewrites the response after dispatch.
#[test]
fn response_hook_rewrites_responses() {
    let owner = PublicKey([4u8; 32]);
    let mut manager = manager_with_balance(owner, 10);
    let id = owner.into_name();

    manager.set_response_hook(Box::new(BumpBalance));
    let r = manager.send(&id, &Request::GetBalance).unwrap();
    assert!(matches!(r, Response::Balance(11)));
}

// The lifecycle calls are accepted and do nothing against the mock.
#[test]
fn bootstrap_and_disconnect_are_noops() {
    let owner = PublicKey([5u8; 32]);
    let mut manager = manager_with_balance(owner, 9);
    let id = owner.into_name();

    manager.bootstrap().unwrap();
    manager.disconnect().unwrap();
    let r = manager.send(&id, &Request::GetBalance).unwrap();
    assert!(matches!(r, Response::Balance(9)));
}

// Unimplemented fault controls answer with an explicit signal instead of
// a silent no-op.
#[test]
fn fault_controls_signal_unsupported() {
    let mut manager = ConnectionManager::new(Vault::new(Config { dev: None }));
    assert_eq!(
        manager.simulate_disconnect().unwrap_err(),
        CoreError::OperationUnsupported
    );
    assert_eq!(
        manager.set_simulate_timeout(true).unwrap_err(),
        CoreError::OperationUnsupported
    );
    assert_eq!(
        manager.set_network_limits(Some(3)).unwrap_err(),
        CoreError::OperationUnsupported
    );
}

// Direct coin allocation reaches the vault through the manager.
#[test]
fn allocate_test_coins_credits_balance() {
    let owner = PublicKey([6u8; 32]);
    let mut manager = manager_with_balance(owner, 1);
    let id = owner.into_name();

    manager.allocate_test_coins(&id, 41).unwrap();
    let r = manager.send(&id, &Request::GetBalance).unwrap();
    assert!(matches!(r, Response::Balance(42)));
}

// The unlimited-mutations switch mirrors the configuration.
#[test]
fn unlimited_muts_reads_config() {
    assert!(!unlimited_muts(&Config { dev: None }));
    assert!(!unlimited_muts(&Config {
        dev: Some(DevConfig { mock_unlimited_mutations: false }),
    }));
    assert!(unlimited_muts(&Config {
        dev: Some(DevConfig { mock_unlimited_mutations: true }),
    }));
}
