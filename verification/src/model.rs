//! The mathematical model of the ledger: its state as two maps, and what each
//! kind of record does to it. Balances are unbounded integers here.

use vstd::prelude::*;
use crate::record::{DepositState, InputRecord, OutputRecord, Rejection, TxType};

verus! {

/// One client's balances as mathematical integers.
pub struct Balance {
    pub available: int,
    pub held: int,
    pub total: int,
    pub locked: bool,
}

impl View for OutputRecord {
    type V = Balance;

    open spec fn view(&self) -> Balance {
        Balance {
            available: self.available as int,
            held: self.held as int,
            total: self.total as int,
            locked: self.locked,
        }
    }
}

/// The accounts of a map of records, as mathematical balances.
pub open spec fn balances(records: Map<u16, OutputRecord>) -> Map<u16, Balance> {
    records.map_values(|record: OutputRecord| record@)
}

/// The state of a ledger: the stored transactions by transaction id, and the
/// accounts by client id.
pub struct LedgerState {
    pub txs: Map<u32, InputRecord>,
    pub accounts: Map<u16, Balance>,
}

/// The state before any record: no transaction, no account.
pub open spec fn empty_state() -> LedgerState {
    LedgerState { txs: Map::empty(), accounts: Map::empty() }
}

/// An unlocked account with nothing in it.
pub open spec fn zero_balance() -> Balance {
    Balance { available: 0, held: 0, total: 0, locked: false }
}

/// The client's balances, or zero balances where the client has no account.
pub open spec fn balance_of(s: LedgerState, client_id: u16) -> Balance {
    if s.accounts.contains_key(client_id) {
        s.accounts[client_id]
    } else {
        zero_balance()
    }
}

/// Whether the client has an account and it is locked.
pub open spec fn locked_in(s: LedgerState, client_id: u16) -> bool {
    s.accounts.contains_key(client_id) && s.accounts[client_id].locked
}

/// The amount of a record, zero where it has none.
pub open spec fn amount_of(r: InputRecord) -> int {
    match r.amount {
        Some(a) => a as int,
        None => 0,
    }
}

/// The record as it is stored, with the given dispute state.
pub open spec fn stored_as(r: InputRecord, state: DepositState) -> InputRecord {
    InputRecord { deposit_state: state, ..r }
}

/// `amount` more, all of it available.
pub open spec fn credited(b: Balance, amount: int) -> Balance {
    Balance { available: b.available + amount, total: b.total + amount, ..b }
}

/// `amount` less, taken from what is available.
pub open spec fn debited(b: Balance, amount: int) -> Balance {
    Balance { available: b.available - amount, total: b.total - amount, ..b }
}

/// `amount` moved from available to held.
pub open spec fn with_hold(b: Balance, amount: int) -> Balance {
    Balance { available: b.available - amount, held: b.held + amount, ..b }
}

/// `amount` moved from held back to available.
pub open spec fn with_release(b: Balance, amount: int) -> Balance {
    Balance { available: b.available + amount, held: b.held - amount, ..b }
}

/// `amount` removed from held for good, and the account locked.
pub open spec fn charged_back(b: Balance, amount: int) -> Balance {
    Balance { held: b.held - amount, total: b.total - amount, locked: true, ..b }
}

/// Why a deposit or withdrawal is turned away before the account is looked
/// at, if it is: the checks are made in this order.
pub open spec fn entry_rejection(s: LedgerState, r: InputRecord) -> Option<Rejection> {
    if s.txs.contains_key(r.tx_id) {
        Some(Rejection::DuplicateTransaction)
    } else if locked_in(s, r.client_id) {
        Some(Rejection::AccountLocked)
    } else if r.amount is None {
        Some(Rejection::MissingAmount)
    } else if r.amount->Some_0 < 0 {
        Some(Rejection::NegativeAmount)
    } else {
        None
    }
}

/// Whether a deposit is applied, and why not.
pub open spec fn deposit_verdict(s: LedgerState, r: InputRecord) -> Result<(), Rejection> {
    match entry_rejection(s, r) {
        Some(why) => Err(why),
        None => Ok(()),
    }
}

/// The state after a deposit was handled.
pub open spec fn deposit_effect(s: LedgerState, r: InputRecord) -> LedgerState {
    if deposit_verdict(s, r) is Ok {
        LedgerState {
            txs: s.txs.insert(r.tx_id, stored_as(r, DepositState::Deposited)),
            accounts: s.accounts.insert(
                r.client_id,
                credited(balance_of(s, r.client_id), amount_of(r)),
            ),
        }
    } else {
        s
    }
}

/// Whether a withdrawal is applied, and why not.
pub open spec fn withdraw_verdict(s: LedgerState, r: InputRecord) -> Result<(), Rejection> {
    match entry_rejection(s, r) {
        Some(why) => Err(why),
        None => if !s.accounts.contains_key(r.client_id) || amount_of(r)
            > s.accounts[r.client_id].available {
            Err(Rejection::InsufficientFunds)
        } else {
            Ok(())
        },
    }
}

/// The state after a withdrawal was handled. A withdrawal for a client
/// without an account is turned away, but leaves an empty account behind.
pub open spec fn withdraw_effect(s: LedgerState, r: InputRecord) -> LedgerState {
    if withdraw_verdict(s, r) is Ok {
        LedgerState {
            txs: s.txs.insert(r.tx_id, stored_as(r, DepositState::NotApplicable)),
            accounts: s.accounts.insert(
                r.client_id,
                debited(s.accounts[r.client_id], amount_of(r)),
            ),
        }
    } else if entry_rejection(s, r) is None && !s.accounts.contains_key(r.client_id) {
        LedgerState { accounts: s.accounts.insert(r.client_id, zero_balance()), ..s }
    } else {
        s
    }
}

/// Whether a dispute, resolve or chargeback may touch the transaction it
/// names, which must be stored in state `needed`; the checks are made in this
/// order.
pub open spec fn reference_verdict(s: LedgerState, r: InputRecord, needed: DepositState) -> Result<
    (),
    Rejection,
> {
    if !s.txs.contains_key(r.tx_id) {
        Err(Rejection::UnknownTransaction)
    } else if s.txs[r.tx_id].client_id != r.client_id {
        Err(Rejection::OwnershipMismatch)
    } else if s.txs[r.tx_id].deposit_state != needed {
        Err(Rejection::InvalidState)
    } else if locked_in(s, r.client_id) {
        Err(Rejection::AccountLocked)
    } else {
        Ok(())
    }
}

/// Whether a dispute is applied, and why not.
pub open spec fn dispute_verdict(s: LedgerState, r: InputRecord) -> Result<(), Rejection> {
    reference_verdict(s, r, DepositState::Deposited)
}

/// The state after a dispute was handled.
pub open spec fn dispute_effect(s: LedgerState, r: InputRecord) -> LedgerState {
    if dispute_verdict(s, r) is Ok {
        let kept = s.txs[r.tx_id];
        LedgerState {
            txs: s.txs.insert(r.tx_id, stored_as(kept, DepositState::InDispute)),
            accounts: s.accounts.insert(
                r.client_id,
                with_hold(s.accounts[r.client_id], amount_of(kept)),
            ),
        }
    } else {
        s
    }
}

/// Whether a resolve is applied, and why not.
pub open spec fn resolve_verdict(s: LedgerState, r: InputRecord) -> Result<(), Rejection> {
    reference_verdict(s, r, DepositState::InDispute)
}

/// The state after a resolve was handled.
pub open spec fn resolve_effect(s: LedgerState, r: InputRecord) -> LedgerState {
    if resolve_verdict(s, r) is Ok {
        let kept = s.txs[r.tx_id];
        LedgerState {
            txs: s.txs.insert(r.tx_id, stored_as(kept, DepositState::Deposited)),
            accounts: s.accounts.insert(
                r.client_id,
                with_release(s.accounts[r.client_id], amount_of(kept)),
            ),
        }
    } else {
        s
    }
}

/// Whether a chargeback is applied, and why not.
pub open spec fn chargeback_verdict(s: LedgerState, r: InputRecord) -> Result<(), Rejection> {
    reference_verdict(s, r, DepositState::InDispute)
}

/// The state after a chargeback was handled. The stored transaction keeps its
/// state: the account is locked, so nothing can refer to it again.
pub open spec fn chargeback_effect(s: LedgerState, r: InputRecord) -> LedgerState {
    if chargeback_verdict(s, r) is Ok {
        LedgerState {
            accounts: s.accounts.insert(
                r.client_id,
                charged_back(s.accounts[r.client_id], amount_of(s.txs[r.tx_id])),
            ),
            ..s
        }
    } else {
        s
    }
}

/// Whether a record of any kind is applied, and why not.
pub open spec fn verdict(s: LedgerState, r: InputRecord) -> Result<(), Rejection> {
    match r.tx_type {
        TxType::Deposit => deposit_verdict(s, r),
        TxType::Withdrawal => withdraw_verdict(s, r),
        TxType::Dispute => dispute_verdict(s, r),
        TxType::Resolve => resolve_verdict(s, r),
        TxType::Chargeback => chargeback_verdict(s, r),
    }
}

/// The state after a record of any kind was handled.
pub open spec fn step(s: LedgerState, r: InputRecord) -> LedgerState {
    match r.tx_type {
        TxType::Deposit => deposit_effect(s, r),
        TxType::Withdrawal => withdraw_effect(s, r),
        TxType::Dispute => dispute_effect(s, r),
        TxType::Resolve => resolve_effect(s, r),
        TxType::Chargeback => chargeback_effect(s, r),
    }
}

/// The state after a whole sequence of records was handled, first to last.
pub open spec fn replay(s: LedgerState, records: Seq<InputRecord>) -> LedgerState
    decreases records.len(),
{
    if records.len() == 0 {
        s
    } else {
        step(replay(s, records.drop_last()), records.last())
    }
}

} // verus!
