//! Record types: what comes in, what is kept per transaction, and what is
//! reported per client.

use vstd::prelude::*;

verus! {

/// Number of fixed-point units in one whole currency unit: amounts carry four
/// decimal digits.
pub const SCALE: i64 = 10_000;

/// The five kinds of transaction.
#[derive(Clone, Copy, Debug, PartialEq, Eq, Structural)]
pub enum TxType {
    Deposit,
    Withdrawal,
    Dispute,
    Resolve,
    Chargeback,
}

/// Where a stored transaction stands with respect to disputes.
#[derive(Clone, Copy, Debug, PartialEq, Eq, Structural)]
pub enum DepositState {
    /// Not a stored deposit. A withdrawal is stored in this state: its id is
    /// taken, but it cannot be disputed.
    NotApplicable,
    /// A deposit that is not under dispute.
    Deposited,
    /// A deposit whose amount is currently held.
    InDispute,
}

impl Default for DepositState {
    fn default() -> (state: Self)
        ensures
            state == DepositState::NotApplicable,
    {
        DepositState::NotApplicable
    }
}

/// One transaction, as it arrives and as it is kept in the transaction map.
///
/// `amount` is in fixed-point units (`SCALE` units make one whole); it is
/// present for deposits and withdrawals only.
#[derive(Clone, Copy, Debug)]
pub struct InputRecord {
    pub tx_type: TxType,
    pub deposit_state: DepositState,
    pub client_id: u16,
    pub tx_id: u32,
    pub amount: Option<i64>,
}

/// One client's balances, in fixed-point units.
///
/// The fields are wider than an amount: a balance is a sum of amounts of 64
/// bits, one for each of at most 2^32 transaction ids, and so stays within
/// 128 bits whatever is handled.
#[derive(Clone, Copy, Debug)]
pub struct OutputRecord {
    pub available: i128,
    pub held: i128,
    pub total: i128,
    pub locked: bool,
}

impl OutputRecord {
    /// An unlocked account that holds `amount`, all of it available.
    pub fn new(amount: i64) -> (record: Self)
        ensures
            record == (OutputRecord { available: amount as i128, held: 0, total: amount as i128, locked: false }),
    {
        Self { available: amount as i128, held: 0, total: amount as i128, locked: false }
    }
}

/// Why a record was not applied.
#[derive(Clone, Copy, Debug, PartialEq, Eq, Structural)]
pub enum Rejection {
    /// A deposit or withdrawal whose transaction id is already stored.
    DuplicateTransaction,
    /// The client's account was charged back earlier.
    AccountLocked,
    /// A deposit or withdrawal without an amount.
    MissingAmount,
    /// A deposit or withdrawal with an amount below zero.
    NegativeAmount,
    /// A withdrawal of more than is available, or for an unknown client.
    InsufficientFunds,
    /// A dispute, resolve or chargeback of a transaction that is not stored.
    UnknownTransaction,
    /// A dispute, resolve or chargeback by a client other than the owner.
    OwnershipMismatch,
    /// The stored transaction is not in the state that the record needs.
    InvalidState,
}

} // verus!
