//! Per-identity coin ledger: an unsigned balance with checked arithmetic and
//! a bounded, most-recent-first history of credits.

use vstd::prelude::*;

use crate::errors::VaultError;
use crate::types::{Coins, PublicKey};
use std::collections::VecDeque;

verus! {

/// Upper bound on the number of credits the history retains; the oldest
/// entry is evicted once the bound is reached.
pub const DEFAULT_MAX_CREDITS: usize = 100;

/// One recorded credit.
#[derive(Clone, Copy, Debug, PartialEq, Eq, Structural)]
pub struct Credit {
    /// The amount credited.
    pub amount: Coins,
    /// The identifier of the transaction that carried the credit.
    pub transaction_id: u64,
}

/// Mathematical state of a ledger.
pub struct LedgerV {
    /// The owner's public key.
    pub owner: Seq<u8>,
    /// The current balance.
    pub value: Coins,
    /// The retained credits, most recent first.
    pub credits: Seq<Credit>,
}

/// The ledger state after a successful credit: the balance grows by
/// `amount` and the credit is pushed to the front of the history, evicting
/// the oldest entry once the history is full.
pub open spec fn ledger_credit(l: LedgerV, amount: Coins, transaction_id: u64) -> LedgerV
    recommends
        l.value + amount <= u64::MAX,
{
    let kept = if l.credits.len() < DEFAULT_MAX_CREDITS {
        l.credits
    } else {
        l.credits.drop_last()
    };
    LedgerV {
        owner: l.owner,
        value: (l.value + amount) as u64,
        credits: seq![Credit { amount, transaction_id }] + kept,
    }
}

/// The ledger state after a successful debit: only the balance changes.
pub open spec fn ledger_debit(l: LedgerV, amount: Coins) -> LedgerV
    recommends
        amount <= l.value,
{
    LedgerV { owner: l.owner, value: (l.value - amount) as u64, credits: l.credits }
}

/// The bounded-history law: a credit pushes the new transaction to the
/// front, never grows the history past its bound, and once the bound is
/// reached evicts exactly the oldest entry.
pub proof fn lemma_credit_bounds_history(l: LedgerV, amount: Coins, transaction_id: u64)
    requires
        l.credits.len() <= DEFAULT_MAX_CREDITS,
    ensures
        ledger_credit(l, amount, transaction_id).credits.len() <= DEFAULT_MAX_CREDITS,
        ledger_credit(l, amount, transaction_id).credits[0] == (Credit { amount, transaction_id }),
        l.credits.len() < DEFAULT_MAX_CREDITS ==> ledger_credit(
            l,
            amount,
            transaction_id,
        ).credits.len() == l.credits.len() + 1,
        l.credits.len() == DEFAULT_MAX_CREDITS ==> ledger_credit(
            l,
            amount,
            transaction_id,
        ).credits.len() == DEFAULT_MAX_CREDITS && (forall|i: int|
            1 <= i < DEFAULT_MAX_CREDITS ==> ledger_credit(l, amount, transaction_id).credits[i]
                == l.credits[i - 1]),
{
}

/// A coin balance bound to one owner key.
pub struct CoinBalance {
    owner: PublicKey,
    value: Coins,
    credits: VecDeque<Credit>,
}

impl View for CoinBalance {
    type V = LedgerV;

    closed spec fn view(&self) -> LedgerV {
        LedgerV { owner: self.owner@, value: self.value, credits: self.credits@ }
    }
}

impl CoinBalance {
    /// The history never exceeds its bound.
    pub open spec fn wf(&self) -> bool {
        self@.credits.len() <= DEFAULT_MAX_CREDITS
    }

    /// Creates a ledger with the given starting balance and owner, and an
    /// empty history.
    pub fn new(value: Coins, owner: PublicKey) -> (r: Self)
        ensures
            r.wf(),
            r@.owner == owner@,
            r@.value == value,
            r@.credits == Seq::<Credit>::empty(),
    {
        Self { owner, value, credits: VecDeque::new() }
    }

    /// Adds `amount` to the balance and records the transaction, evicting
    /// the oldest entry once the history is full. Fails without any change
    /// when the balance would overflow.
    pub fn credit_balance(&mut self, amount: Coins, transaction_id: u64) -> (r: Result<
        (),
        VaultError,
    >)
        requires
            old(self).wf(),
        ensures
            final(self).wf(),
            old(self)@.value + amount <= u64::MAX ==> r is Ok && final(self)@ == ledger_credit(
                old(self)@,
                amount,
                transaction_id,
            ),
            old(self)@.value + amount > u64::MAX ==> r == Err::<(), VaultError>(
                VaultError::BalanceOverflow,
            ) && final(self)@ == old(self)@,
    {
        if amount <= u64::MAX - self.value {
            self.value = self.value + amount;
            self.add_transaction(amount, transaction_id);
            Ok(())
        } else {
            Err(VaultError::BalanceOverflow)
        }
    }

    /// Subtracts `amount` from the balance; the history is untouched.
    /// Fails without any change when the balance is insufficient.
    pub fn debit_balance(&mut self, amount: Coins) -> (r: Result<(), VaultError>)
        requires
            old(self).wf(),
        ensures
            final(self).wf(),
            amount <= old(self)@.value ==> r is Ok && final(self)@ == ledger_debit(
                old(self)@,
                amount,
            ),
            amount > old(self)@.value ==> r == Err::<(), VaultError>(VaultError::BalanceUnderflow)
                && final(self)@ == old(self)@,
    {
        if amount <= self.value {
            self.value = self.value - amount;
            Ok(())
        } else {
            Err(VaultError::BalanceUnderflow)
        }
    }

    /// The current balance.
    pub fn balance(&self) -> (r: Coins)
        ensures
            r == self@.value,
    {
        self.value
    }

    /// The owner's public key.
    pub fn owner(&self) -> (r: &PublicKey)
        ensures
            r@ == self@.owner,
    {
        &self.owner
    }

    /// The retained credits, most recent first.
    pub fn credits(&self) -> (r: &VecDeque<Credit>)
        ensures
            r@ == self@.credits,
    {
        &self.credits
    }

    fn add_transaction(&mut self, amount: Coins, transaction_id: u64)
        requires
            old(self).wf(),
        ensures
            final(self).wf(),
            final(self)@.owner == old(self)@.owner,
            final(self)@.value == old(self)@.value,
            final(self)@.credits == seq![
                Credit { amount, transaction_id },
            ] + (if old(self)@.credits.len() < DEFAULT_MAX_CREDITS {
                old(self)@.credits
            } else {
                old(self)@.credits.drop_last()
            }),
    {
        if self.credits.len() == DEFAULT_MAX_CREDITS {
            let _ = self.credits.pop_back();
        }
        let credit = Credit { amount, transaction_id };
        self.credits.push_front(credit);
    }
}

} // verus!
