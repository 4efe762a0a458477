//! Routes client requests to the vault, presenting the uniform
//! request/response contract, with pluggable request and response hooks
//! for protocol-level interception and explicit signals for fault
//! controls this build does not implement.

use vstd::prelude::*;

use crate::errors::{CoreError, VaultError};
use crate::ledger::{ledger_credit, LedgerV};
use crate::messages::{lemma_req_round_trip, lemma_resp_round_trip, Request, Response};
use crate::types::{Coins, PublicKey, XorName};
use crate::vault::{entry_or_default, vault_step, Config, EntryV, Vault};

verus! {

/// Inspects a request before dispatch; returning a response short-circuits
/// the vault entirely. Implemented by test code to simulate arbitrary
/// server behavior; it must not reach back into the vault.
pub trait RequestHook {
    /// The synthetic response for `request`, or nothing to let normal
    /// dispatch proceed.
    fn handle(&mut self, request: &Request) -> Option<Response>;
}

/// Rewrites a response after dispatch, before it reaches the caller.
/// Implemented by test code; it must not reach back into the vault.
pub trait ResponseHook {
    /// The response to hand the caller in place of `response`.
    fn rewrite(&mut self, response: Response) -> Response;
}

/// Routes requests to the vault it owns, with optional interception.
pub struct ConnectionManager {
    vault: Vault,
    request_hook: Option<Box<dyn RequestHook>>,
    response_hook: Option<Box<dyn ResponseHook>>,
}

impl ConnectionManager {
    /// The vault is well-formed.
    pub closed spec fn wf(&self) -> bool {
        self.vault.wf()
    }

    /// The vault's per-identity state.
    pub closed spec fn vault_state(&self) -> crate::vault::VaultV {
        self.vault@
    }

    /// Whether a request hook is installed.
    pub closed spec fn has_request_hook(&self) -> bool {
        self.request_hook is Some
    }

    /// Whether a response hook is installed.
    pub closed spec fn has_response_hook(&self) -> bool {
        self.response_hook is Some
    }

    /// Creates a manager around the vault injected at startup, with no
    /// hooks installed.
    pub fn new(vault: Vault) -> (r: Self)
        requires
            vault.wf(),
        ensures
            r.wf(),
            r.vault_state() == vault@,
            !r.has_request_hook(),
            !r.has_response_hook(),
    {
        ConnectionManager { vault, request_hook: None, response_hook: None }
    }

    /// Sends a request toward the identity `pub_id` and blocks for the
    /// response.
    ///
    /// An installed request hook may answer with a synthetic response, in
    /// which case the vault is untouched; otherwise the vault takes
    /// exactly one step for the request. After dispatch an installed
    /// response hook may rewrite the response. Without hooks the result
    /// is exactly the vault's response.
    pub fn send(&mut self, pub_id: &XorName, msg: &Request) -> (r: Result<Response, CoreError>)
        requires
            old(self).wf(),
        ensures
            final(self).wf(),
            final(self).has_request_hook() == old(self).has_request_hook(),
            final(self).has_response_hook() == old(self).has_response_hook(),
            r is Ok,
            !old(self).has_request_hook() ==> final(self).vault_state() == vault_step(
                old(self).vault_state(),
                pub_id@,
                msg@,
            ).0,
            old(self).has_request_hook() ==> final(self).vault_state() == old(self).vault_state()
                || final(self).vault_state() == vault_step(old(self).vault_state(), pub_id@, msg@).0,
            (!old(self).has_request_hook() && !old(self).has_response_hook()) ==> (r matches Ok(
                resp,
            ) && resp@ == vault_step(old(self).vault_state(), pub_id@, msg@).1),
    {
        let short_circuit: Option<Response> = match &mut self.request_hook {
            Some(hook) => hook.handle(msg),
            None => None,
        };
        if let Some(synthetic) = short_circuit {
            return Ok(synthetic);
        }
        let serialised = msg.to_bytes();
        let response_bytes = self.vault.process_request(pub_id, serialised.as_slice());
        proof {
            lemma_req_round_trip(msg@);
            lemma_resp_round_trip(vault_step(old(self).vault_state(), pub_id@, msg@).1);
        }
        let response = match Response::from_bytes(response_bytes.as_slice()) {
            Some(resp) => resp,
            None => {
                return Err(CoreError::Unexpected);
            },
        };
        let response = match &mut self.response_hook {
            Some(hook) => hook.rewrite(response),
            None => response,
        };
        Ok(response)
    }

    /// Establishes contact with the network; nothing to do against the
    /// mock backend.
    pub fn bootstrap(&mut self) -> (r: Result<(), CoreError>)
        requires
            old(self).wf(),
        ensures
            final(self).wf(),
            r is Ok,
            final(self).vault_state() == old(self).vault_state(),
            final(self).has_request_hook() == old(self).has_request_hook(),
            final(self).has_response_hook() == old(self).has_response_hook(),
    {
        Ok(())
    }

    /// Tears down contact with the network; nothing to do against the
    /// mock backend.
    pub fn disconnect(&mut self) -> (r: Result<(), CoreError>)
        requires
            old(self).wf(),
        ensures
            final(self).wf(),
            r is Ok,
            final(self).vault_state() == old(self).vault_state(),
            final(self).has_request_hook() == old(self).has_request_hook(),
            final(self).has_response_hook() == old(self).has_response_hook(),
    {
        Ok(())
    }

    /// Adds coins directly to the balance named `coin_balance_name`, for
    /// seeding fixtures.
    pub fn allocate_test_coins(&mut self, coin_balance_name: &XorName, amount: Coins) -> (r: Result<
        (),
        VaultError,
    >)
        requires
            old(self).wf(),
        ensures
            final(self).wf(),
            final(self).has_request_hook() == old(self).has_request_hook(),
            final(self).has_response_hook() == old(self).has_response_hook(),
            !old(self).vault_state().contains_key(coin_balance_name@) ==> r == Err::<
                (),
                VaultError,
            >(VaultError::NoSuchBalance) && final(self).vault_state() == old(self).vault_state(),
            old(self).vault_state().contains_key(coin_balance_name@) && old(self).vault_state()[coin_balance_name@].ledger.value
                + amount > u64::MAX ==> r == Err::<(), VaultError>(VaultError::BalanceOverflow)
                && final(self).vault_state() == old(self).vault_state(),
            old(self).vault_state().contains_key(coin_balance_name@) && old(self).vault_state()[coin_balance_name@].ledger.value
                + amount <= u64::MAX ==> r is Ok && final(self).vault_state() == old(
                self,
            ).vault_state().insert(
                coin_balance_name@,
                EntryV {
                    ledger: ledger_credit(
                        old(self).vault_state()[coin_balance_name@].ledger,
                        amount,
                        0,
                    ),
                    auth: old(self).vault_state()[coin_balance_name@].auth,
                },
            ),
    {
        self.vault.mock_increment_balance(coin_balance_name, amount)
    }

    /// Creates a coin balance for `owner` directly, for seeding fixtures.
    pub fn create_balance(&mut self, owner: PublicKey, amount: Coins)
        requires
            old(self).wf(),
        ensures
            final(self).wf(),
            final(self).has_request_hook() == old(self).has_request_hook(),
            final(self).has_response_hook() == old(self).has_response_hook(),
            final(self).vault_state() == old(self).vault_state().insert(
                owner@,
                EntryV {
                    ledger: LedgerV { owner: owner@, value: amount, credits: Seq::empty() },
                    auth: entry_or_default(old(self).vault_state(), owner@).auth,
                },
            ),
    {
        self.vault.mock_create_balance(owner, amount)
    }

    /// Simulating a network disconnect is not implemented in this build;
    /// the explicit signal keeps the untested fault path from being
    /// silently masked.
    pub fn simulate_disconnect(&self) -> (r: Result<(), CoreError>)
        ensures
            r == Err::<(), CoreError>(CoreError::OperationUnsupported),
    {
        Err(CoreError::OperationUnsupported)
    }

    /// Simulating network timeouts is not implemented in this build; the
    /// explicit signal keeps the untested fault path from being silently
    /// masked.
    pub fn set_simulate_timeout(&mut self, enable: bool) -> (r: Result<(), CoreError>)
        requires
            old(self).wf(),
        ensures
            final(self).wf(),
            r == Err::<(), CoreError>(CoreError::OperationUnsupported),
            final(self).vault_state() == old(self).vault_state(),
            final(self).has_request_hook() == old(self).has_request_hook(),
            final(self).has_response_hook() == old(self).has_response_hook(),
    {
        let _ = enable;
        Err(CoreError::OperationUnsupported)
    }

    /// Limiting the number of network operations is not implemented in
    /// this build; the explicit signal keeps the untested fault path from
    /// being silently masked.
    pub fn set_network_limits(&mut self, max_ops_count: Option<u64>) -> (r: Result<(), CoreError>)
        requires
            old(self).wf(),
        ensures
            final(self).wf(),
            r == Err::<(), CoreError>(CoreError::OperationUnsupported),
            final(self).vault_state() == old(self).vault_state(),
            final(self).has_request_hook() == old(self).has_request_hook(),
            final(self).has_response_hook() == old(self).has_response_hook(),
    {
        let _ = max_ops_count;
        Err(CoreError::OperationUnsupported)
    }

    /// Installs a hook that inspects each request before dispatch and may
    /// answer it with a synthetic response, for test purposes.
    pub fn set_request_hook(&mut self, hook: Box<dyn RequestHook>)
        requires
            old(self).wf(),
        ensures
            final(self).wf(),
            final(self).vault_state() == old(self).vault_state(),
            final(self).has_request_hook(),
            final(self).has_response_hook() == old(self).has_response_hook(),
    {
        self.request_hook = Some(hook);
    }

    /// Installs a hook that rewrites each response after dispatch, for
    /// test purposes.
    pub fn set_response_hook(&mut self, hook: Box<dyn ResponseHook>)
        requires
            old(self).wf(),
        ensures
            final(self).wf(),
            final(self).vault_state() == old(self).vault_state(),
            final(self).has_response_hook(),
            final(self).has_request_hook() == old(self).has_request_hook(),
    {
        self.response_hook = Some(hook);
    }

    /// Removes the request hook; normal dispatch resumes.
    pub fn remove_request_hook(&mut self)
        requires
            old(self).wf(),
        ensures
            final(self).wf(),
            final(self).vault_state() == old(self).vault_state(),
            !final(self).has_request_hook(),
            final(self).has_response_hook() == old(self).has_response_hook(),
    {
        self.request_hook = None;
    }
}

/// Whether the configuration waives per-account mutation caps.
pub open spec fn spec_unlimited_muts(config: Config) -> bool {
    match config.dev {
        Some(dev) => dev.mock_unlimited_mutations,
        None => false,
    }
}

/// Whether per-account mutation caps are waived by the configuration; the
/// surrounding application may override this from its environment.
pub fn unlimited_muts(config: &Config) -> (r: bool)
    ensures
        r == spec_unlimited_muts(*config),
{
    match &config.dev {
        Some(dev) => dev.mock_unlimited_mutations,
        None => false,
    }
}

} // verus!
