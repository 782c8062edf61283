//! What follows from the model for every state and every record.

use vstd::prelude::*;
use crate::consistency::{
    account_ok, consistent, lemma_empty_consistent, lemma_replay_consistent, stored_ok,
};
use crate::model::{
    amount_of, balance_of, empty_state, locked_in, replay, step, verdict, LedgerState,
};
use crate::record::{DepositState, InputRecord, Rejection, TxType};

verus! {

/// A deposit that is applied adds its amount, which is not negative, to what
/// the client has available and to the client's total; what is held stays,
/// the account stays unlocked, and no other account changes. A client
/// without an account counts as having nothing.
pub proof fn lemma_deposit_credits(s: LedgerState, r: InputRecord)
    requires
        r.tx_type == TxType::Deposit,
        verdict(s, r) is Ok,
    ensures
        amount_of(r) >= 0,
        step(s, r).accounts.contains_key(r.client_id),
        balance_of(step(s, r), r.client_id).available == balance_of(s, r.client_id).available
            + amount_of(r),
        balance_of(step(s, r), r.client_id).total == balance_of(s, r.client_id).total + amount_of(
            r,
        ),
        balance_of(step(s, r), r.client_id).held == balance_of(s, r.client_id).held,
        !balance_of(step(s, r), r.client_id).locked,
        forall|other: u16|
            other != r.client_id ==> step(s, r).accounts.contains_key(other)
                == s.accounts.contains_key(other) && step(s, r).accounts[other]
                == s.accounts[other],
        step(s, r).txs.contains_key(r.tx_id),
        step(s, r).txs[r.tx_id].deposit_state == DepositState::Deposited,
{
}

/// In a consistent state every account's total is what is available plus
/// what is held.
pub proof fn lemma_total_is_available_plus_held(s: LedgerState, client_id: u16)
    requires
        consistent(s),
        s.accounts.contains_key(client_id),
    ensures
        s.accounts[client_id].total == s.accounts[client_id].available + s.accounts[client_id].held,
{
    assert(account_ok(s, client_id));
}

/// After any records, handled from the start, every account's total is what
/// is available plus what is held.
pub proof fn lemma_total_after_replay(records: Seq<InputRecord>, client_id: u16)
    requires
        replay(empty_state(), records).accounts.contains_key(client_id),
    ensures
        replay(empty_state(), records).accounts[client_id].total == replay(
            empty_state(),
            records,
        ).accounts[client_id].available + replay(empty_state(), records).accounts[client_id].held,
{
    lemma_empty_consistent();
    lemma_replay_consistent(empty_state(), records);
    lemma_total_is_available_plus_held(replay(empty_state(), records), client_id);
}

/// A deposit or withdrawal under a transaction id that is stored is turned
/// away as a duplicate, whatever its client and amount, and changes nothing.
pub proof fn lemma_duplicate_rejected(s: LedgerState, r: InputRecord)
    requires
        r.tx_type == TxType::Deposit || r.tx_type == TxType::Withdrawal,
        s.txs.contains_key(r.tx_id),
    ensures
        verdict(s, r) == Err::<(), Rejection>(Rejection::DuplicateTransaction),
        step(s, r) == s,
{
}

/// A stored transaction stays stored, whatever record is handled.
pub proof fn lemma_stored_stays(s: LedgerState, r: InputRecord, tx_id: u32)
    requires
        s.txs.contains_key(tx_id),
    ensures
        step(s, r).txs.contains_key(tx_id),
{
}

/// A stored transaction stays stored, whatever records are handled.
pub proof fn lemma_stored_stays_in_replay(s: LedgerState, records: Seq<InputRecord>, tx_id: u32)
    requires
        s.txs.contains_key(tx_id),
    ensures
        replay(s, records).txs.contains_key(tx_id),
    decreases records.len(),
{
    if records.len() > 0 {
        lemma_stored_stays_in_replay(s, records.drop_last(), tx_id);
        lemma_stored_stays(replay(s, records.drop_last()), records.last(), tx_id);
    }
}

/// Once a deposit or withdrawal was applied, a deposit or withdrawal under
/// the same transaction id is turned away as a duplicate and changes
/// nothing, whatever was handled in between.
pub proof fn lemma_resubmission_rejected(
    s: LedgerState,
    first: InputRecord,
    between: Seq<InputRecord>,
    again: InputRecord,
)
    requires
        first.tx_type == TxType::Deposit || first.tx_type == TxType::Withdrawal,
        again.tx_type == TxType::Deposit || again.tx_type == TxType::Withdrawal,
        verdict(s, first) is Ok,
        again.tx_id == first.tx_id,
    ensures
        verdict(replay(step(s, first), between), again) == Err::<(), Rejection>(
            Rejection::DuplicateTransaction,
        ),
        step(replay(step(s, first), between), again) == replay(step(s, first), between),
{
    lemma_stored_stays_in_replay(step(s, first), between, first.tx_id);
    lemma_duplicate_rejected(replay(step(s, first), between), again);
}

/// A dispute of a transaction that is not stored is turned away and changes
/// nothing.
pub proof fn lemma_dispute_unknown(s: LedgerState, r: InputRecord)
    requires
        r.tx_type == TxType::Dispute,
        !s.txs.contains_key(r.tx_id),
    ensures
        verdict(s, r) == Err::<(), Rejection>(Rejection::UnknownTransaction),
        step(s, r) == s,
{
}

/// A dispute by a client other than the one the transaction is stored for
/// is turned away and changes nothing.
pub proof fn lemma_dispute_not_owner(s: LedgerState, r: InputRecord)
    requires
        r.tx_type == TxType::Dispute,
        s.txs.contains_key(r.tx_id),
        s.txs[r.tx_id].client_id != r.client_id,
    ensures
        verdict(s, r) == Err::<(), Rejection>(Rejection::OwnershipMismatch),
        step(s, r) == s,
{
}

/// A dispute that is applied moves the transaction's amount from available
/// to held, leaves the total, and puts the transaction in dispute.
pub proof fn lemma_dispute_holds(s: LedgerState, r: InputRecord)
    requires
        r.tx_type == TxType::Dispute,
        verdict(s, r) is Ok,
    ensures
        step(s, r).accounts[r.client_id].available == s.accounts[r.client_id].available
            - amount_of(s.txs[r.tx_id]),
        step(s, r).accounts[r.client_id].held == s.accounts[r.client_id].held + amount_of(
            s.txs[r.tx_id],
        ),
        step(s, r).accounts[r.client_id].total == s.accounts[r.client_id].total,
        step(s, r).txs[r.tx_id].deposit_state == DepositState::InDispute,
{
}

/// A dispute that is applied and the resolve of the same transaction right
/// after it, which is applied too, lead back to the state before the
/// dispute: the balances are what they were, and the transaction is
/// `Deposited` again.
pub proof fn lemma_dispute_resolve_round_trip(
    s: LedgerState,
    dispute: InputRecord,
    resolve: InputRecord,
)
    requires
        consistent(s),
        dispute.tx_type == TxType::Dispute,
        resolve.tx_type == TxType::Resolve,
        resolve.tx_id == dispute.tx_id,
        resolve.client_id == dispute.client_id,
        verdict(s, dispute) is Ok,
    ensures
        verdict(step(s, dispute), resolve) is Ok,
        step(step(s, dispute), resolve) == s,
        step(step(s, dispute), resolve).accounts[dispute.client_id] == s.accounts[dispute.client_id],
        step(step(s, dispute), resolve).txs[dispute.tx_id].deposit_state == DepositState::Deposited,
{
    let back = step(step(s, dispute), resolve);
    assert(stored_ok(s, dispute.tx_id));
    assert(back.txs =~= s.txs);
    assert(back.accounts =~= s.accounts);
}

/// A chargeback that is applied takes the transaction's amount from held
/// and from the total, leaves what is available, and locks the account.
pub proof fn lemma_chargeback_locks(s: LedgerState, r: InputRecord)
    requires
        r.tx_type == TxType::Chargeback,
        verdict(s, r) is Ok,
    ensures
        locked_in(step(s, r), r.client_id),
        step(s, r).accounts[r.client_id].held == s.accounts[r.client_id].held - amount_of(
            s.txs[r.tx_id],
        ),
        step(s, r).accounts[r.client_id].total == s.accounts[r.client_id].total - amount_of(
            s.txs[r.tx_id],
        ),
        step(s, r).accounts[r.client_id].available == s.accounts[r.client_id].available,
{
}

/// Every record for a client whose account is locked is turned away and
/// changes nothing, whatever its kind.
pub proof fn lemma_locked_rejects(s: LedgerState, r: InputRecord)
    requires
        locked_in(s, r.client_id),
    ensures
        verdict(s, r) is Err,
        step(s, r) == s,
{
}

/// A locked account stays as it is, whatever record is handled.
pub proof fn lemma_locked_stays(s: LedgerState, r: InputRecord, client_id: u16)
    requires
        locked_in(s, client_id),
    ensures
        locked_in(step(s, r), client_id),
        step(s, r).accounts[client_id] == s.accounts[client_id],
{
}

/// A locked account stays as it is, whatever records are handled: locking
/// is for good.
pub proof fn lemma_locked_for_good(s: LedgerState, records: Seq<InputRecord>, client_id: u16)
    requires
        locked_in(s, client_id),
    ensures
        locked_in(replay(s, records), client_id),
        replay(s, records).accounts[client_id] == s.accounts[client_id],
    decreases records.len(),
{
    if records.len() > 0 {
        lemma_locked_for_good(s, records.drop_last(), client_id);
        lemma_locked_stays(replay(s, records.drop_last()), records.last(), client_id);
    }
}

/// After a chargeback that is applied, every later record for that client
/// is turned away and changes nothing, whatever was handled in between.
pub proof fn lemma_rejected_after_chargeback(
    s: LedgerState,
    chargeback: InputRecord,
    between: Seq<InputRecord>,
    later: InputRecord,
)
    requires
        chargeback.tx_type == TxType::Chargeback,
        verdict(s, chargeback) is Ok,
        later.client_id == chargeback.client_id,
    ensures
        verdict(replay(step(s, chargeback), between), later) is Err,
        step(replay(step(s, chargeback), between), later) == replay(step(s, chargeback), between),
{
    lemma_chargeback_locks(s, chargeback);
    lemma_locked_for_good(step(s, chargeback), between, chargeback.client_id);
    lemma_locked_rejects(replay(step(s, chargeback), between), later);
}

} // verus!
