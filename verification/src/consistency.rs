//! What holds of every state that records can lead to: each unlocked account
//! is the sum of its client's stored transactions. From this follow the
//! bounds that keep the executable arithmetic within `i128`.

use vstd::prelude::*;
use crate::model::{
    amount_of, chargeback_effect, chargeback_verdict, deposit_effect, deposit_verdict,
    dispute_effect, dispute_verdict, empty_state, replay, resolve_effect, resolve_verdict, step,
    withdraw_effect, withdraw_verdict, LedgerState,
};
use crate::record::{DepositState, InputRecord, TxType};

verus! {

/// The number of transaction ids there are.
pub open spec fn tx_space() -> nat {
    0x1_0000_0000
}

/// No amount reaches this many units.
pub open spec fn amount_limit() -> int {
    0x8000_0000_0000_0000
}

/// What a stored transaction adds to its client's total: a deposit its
/// amount, a withdrawal (stored as `NotApplicable`) the negated amount.
pub open spec fn total_share(r: InputRecord) -> int {
    if r.deposit_state == DepositState::NotApplicable {
        -amount_of(r)
    } else {
        amount_of(r)
    }
}

/// What a stored transaction adds to its client's held funds: its amount
/// while it is in dispute.
pub open spec fn held_share(r: InputRecord) -> int {
    if r.deposit_state == DepositState::InDispute {
        amount_of(r)
    } else {
        0
    }
}

/// The share of transaction `tx_id` in the held funds (`held`) or in the
/// total (otherwise) of `client_id`: zero unless it is stored for that
/// client.
pub open spec fn share(txs: Map<u32, InputRecord>, client_id: u16, held: bool, tx_id: u32) -> int {
    if txs.contains_key(tx_id) && txs[tx_id].client_id == client_id {
        if held {
            held_share(txs[tx_id])
        } else {
            total_share(txs[tx_id])
        }
    } else {
        0
    }
}

/// The sum of the shares of the transaction ids below `below`.
pub open spec fn share_sum(txs: Map<u32, InputRecord>, client_id: u16, held: bool, below: nat) -> int
    decreases below,
{
    if below == 0 {
        0
    } else {
        share_sum(txs, client_id, held, (below - 1) as nat) + share(
            txs,
            client_id,
            held,
            (below - 1) as u32,
        )
    }
}

/// The total that the stored transactions give a client.
pub open spec fn total_due(s: LedgerState, client_id: u16) -> int {
    share_sum(s.txs, client_id, false, tx_space())
}

/// The held funds that the stored transactions give a client.
pub open spec fn held_due(s: LedgerState, client_id: u16) -> int {
    share_sum(s.txs, client_id, true, tx_space())
}

/// A stored transaction is kept under its own id, has an amount that is not
/// negative, and belongs to a client with an account.
pub open spec fn stored_ok(s: LedgerState, tx_id: u32) -> bool {
    let r = s.txs[tx_id];
    &&& r.tx_id == tx_id
    &&& r.amount is Some
    &&& r.amount->Some_0 >= 0
    &&& s.accounts.contains_key(r.client_id)
}

/// An account's total is what is available plus what is held; while it is
/// unlocked, total and held funds are what the stored transactions give.
pub open spec fn account_ok(s: LedgerState, client_id: u16) -> bool {
    let b = s.accounts[client_id];
    &&& b.total == b.available + b.held
    &&& !b.locked ==> b.total == total_due(s, client_id) && b.held == held_due(s, client_id)
}

/// The invariant of the ledger.
pub open spec fn consistent(s: LedgerState) -> bool {
    &&& forall|tx_id: u32| #[trigger] s.txs.contains_key(tx_id) ==> stored_ok(s, tx_id)
    &&& forall|client_id: u16| #[trigger]
        s.accounts.contains_key(client_id) ==> account_ok(s, client_id)
}

/// Storing one transaction changes a sum by the change of that transaction's
/// share, if its id is among those summed.
pub proof fn lemma_share_sum_insert(
    txs: Map<u32, InputRecord>,
    tx_id: u32,
    r: InputRecord,
    client_id: u16,
    held: bool,
    below: nat,
)
    requires
        below <= tx_space(),
    ensures
        share_sum(txs.insert(tx_id, r), client_id, held, below) == share_sum(
            txs,
            client_id,
            held,
            below,
        ) + if (tx_id as nat) < below {
            share(txs.insert(tx_id, r), client_id, held, tx_id) - share(
                txs,
                client_id,
                held,
                tx_id,
            )
        } else {
            0
        },
    decreases below,
{
    if below > 0 {
        lemma_share_sum_insert(txs, tx_id, r, client_id, held, (below - 1) as nat);
    }
}

/// A client without stored transactions has sums of zero.
pub proof fn lemma_share_sum_absent(
    txs: Map<u32, InputRecord>,
    client_id: u16,
    held: bool,
    below: nat,
)
    requires
        forall|tx_id: u32| #[trigger] txs.contains_key(tx_id) ==> txs[tx_id].client_id != client_id,
    ensures
        share_sum(txs, client_id, held, below) == 0,
    decreases below,
{
    if below > 0 {
        lemma_share_sum_absent(txs, client_id, held, (below - 1) as nat);
    }
}

/// A sum of `below` shares lies within `below` times the limit of an amount,
/// and a sum of held shares is not negative.
pub proof fn lemma_share_sum_bounds(
    txs: Map<u32, InputRecord>,
    client_id: u16,
    held: bool,
    below: nat,
)
    requires
        forall|tx_id: u32| #[trigger]
            txs.contains_key(tx_id) ==> txs[tx_id].amount is Some && txs[tx_id].amount->Some_0 >= 0,
    ensures
        -(below * amount_limit()) <= share_sum(txs, client_id, held, below) <= below
            * amount_limit(),
        held ==> 0 <= share_sum(txs, client_id, held, below),
    decreases below,
{
    if below > 0 {
        let before = (below - 1) as nat;
        lemma_share_sum_bounds(txs, client_id, held, before);
        assert(below * amount_limit() == before * amount_limit() + amount_limit())
            by (nonlinear_arith)
            requires
                below == before + 1,
        ;
    }
}

/// The bounds of an unlocked account in a consistent state.
pub proof fn lemma_unlocked_bounds(s: LedgerState, client_id: u16)
    requires
        consistent(s),
        s.accounts.contains_key(client_id),
        !s.accounts[client_id].locked,
    ensures
        -0x8000_0000_0000_0000_0000_0000 <= s.accounts[client_id].total
            <= 0x8000_0000_0000_0000_0000_0000,
        0 <= s.accounts[client_id].held <= 0x8000_0000_0000_0000_0000_0000,
        -0x1_0000_0000_0000_0000_0000_0000 <= s.accounts[client_id].available
            <= 0x8000_0000_0000_0000_0000_0000,
{
    lemma_share_sum_bounds(s.txs, client_id, false, tx_space());
    lemma_share_sum_bounds(s.txs, client_id, true, tx_space());
    assert(tx_space() * amount_limit() == 0x8000_0000_0000_0000_0000_0000) by (nonlinear_arith)
        requires
            tx_space() == 0x1_0000_0000,
            amount_limit() == 0x8000_0000_0000_0000,
    ;
    assert(account_ok(s, client_id));
}

/// The sums of every client after one transaction was stored, by the change
/// of that transaction's share.
proof fn lemma_sums_after_store(s: LedgerState, tx_id: u32, r: InputRecord, client_id: u16)
    ensures
        share_sum(s.txs.insert(tx_id, r), client_id, false, tx_space()) == total_due(s, client_id)
            + share(s.txs.insert(tx_id, r), client_id, false, tx_id) - share(
            s.txs,
            client_id,
            false,
            tx_id,
        ),
        share_sum(s.txs.insert(tx_id, r), client_id, true, tx_space()) == held_due(s, client_id)
            + share(s.txs.insert(tx_id, r), client_id, true, tx_id) - share(
            s.txs,
            client_id,
            true,
            tx_id,
        ),
{
    lemma_share_sum_insert(s.txs, tx_id, r, client_id, false, tx_space());
    lemma_share_sum_insert(s.txs, tx_id, r, client_id, true, tx_space());
}

/// In a consistent state a client without an account has sums of zero.
proof fn lemma_sums_without_account(s: LedgerState, client_id: u16)
    requires
        consistent(s),
        !s.accounts.contains_key(client_id),
    ensures
        total_due(s, client_id) == 0,
        held_due(s, client_id) == 0,
{
    assert forall|tx_id: u32| #[trigger] s.txs.contains_key(tx_id) implies s.txs[tx_id].client_id
        != client_id by {
        assert(stored_ok(s, tx_id));
    }
    lemma_share_sum_absent(s.txs, client_id, false, tx_space());
    lemma_share_sum_absent(s.txs, client_id, true, tx_space());
}

/// A deposit leads from a consistent state to a consistent state.
pub proof fn lemma_deposit_consistent(s: LedgerState, r: InputRecord)
    requires
        consistent(s),
    ensures
        consistent(deposit_effect(s, r)),
{
    let after = deposit_effect(s, r);
    if deposit_verdict(s, r) is Ok {
        let kept = after.txs[r.tx_id];
        assert forall|tx_id: u32| #[trigger] after.txs.contains_key(tx_id) implies stored_ok(
            after,
            tx_id,
        ) by {
            if tx_id != r.tx_id {
                assert(stored_ok(s, tx_id));
            }
        }
        assert forall|client_id: u16| #[trigger]
            after.accounts.contains_key(client_id) implies account_ok(after, client_id) by {
            lemma_sums_after_store(s, r.tx_id, kept, client_id);
            if s.accounts.contains_key(client_id) {
                assert(account_ok(s, client_id));
            } else {
                lemma_sums_without_account(s, client_id);
            }
        }
    }
}

/// A withdrawal leads from a consistent state to a consistent state.
pub proof fn lemma_withdraw_consistent(s: LedgerState, r: InputRecord)
    requires
        consistent(s),
    ensures
        consistent(withdraw_effect(s, r)),
{
    let after = withdraw_effect(s, r);
    if withdraw_verdict(s, r) is Ok {
        let kept = after.txs[r.tx_id];
        assert forall|tx_id: u32| #[trigger] after.txs.contains_key(tx_id) implies stored_ok(
            after,
            tx_id,
        ) by {
            if tx_id != r.tx_id {
                assert(stored_ok(s, tx_id));
            }
        }
        assert forall|client_id: u16| #[trigger]
            after.accounts.contains_key(client_id) implies account_ok(after, client_id) by {
            lemma_sums_after_store(s, r.tx_id, kept, client_id);
            assert(account_ok(s, client_id));
        }
    } else if after != s {
        assert forall|tx_id: u32| #[trigger] after.txs.contains_key(tx_id) implies stored_ok(
            after,
            tx_id,
        ) by {
            assert(stored_ok(s, tx_id));
        }
        assert forall|client_id: u16| #[trigger]
            after.accounts.contains_key(client_id) implies account_ok(after, client_id) by {
            if s.accounts.contains_key(client_id) {
                assert(account_ok(s, client_id));
            } else {
                lemma_sums_without_account(s, client_id);
            }
        }
    }
}

/// A dispute leads from a consistent state to a consistent state.
pub proof fn lemma_dispute_consistent(s: LedgerState, r: InputRecord)
    requires
        consistent(s),
    ensures
        consistent(dispute_effect(s, r)),
{
    let after = dispute_effect(s, r);
    if dispute_verdict(s, r) is Ok {
        let kept = after.txs[r.tx_id];
        assert(stored_ok(s, r.tx_id));
        assert forall|tx_id: u32| #[trigger] after.txs.contains_key(tx_id) implies stored_ok(
            after,
            tx_id,
        ) by {
            assert(stored_ok(s, tx_id));
        }
        assert forall|client_id: u16| #[trigger]
            after.accounts.contains_key(client_id) implies account_ok(after, client_id) by {
            lemma_sums_after_store(s, r.tx_id, kept, client_id);
            assert(account_ok(s, client_id));
        }
    }
}

/// A resolve leads from a consistent state to a consistent state.
pub proof fn lemma_resolve_consistent(s: LedgerState, r: InputRecord)
    requires
        consistent(s),
    ensures
        consistent(resolve_effect(s, r)),
{
    let after = resolve_effect(s, r);
    if resolve_verdict(s, r) is Ok {
        let kept = after.txs[r.tx_id];
        assert(stored_ok(s, r.tx_id));
        assert forall|tx_id: u32| #[trigger] after.txs.contains_key(tx_id) implies stored_ok(
            after,
            tx_id,
        ) by {
            assert(stored_ok(s, tx_id));
        }
        assert forall|client_id: u16| #[trigger]
            after.accounts.contains_key(client_id) implies account_ok(after, client_id) by {
            lemma_sums_after_store(s, r.tx_id, kept, client_id);
            assert(account_ok(s, client_id));
        }
    }
}

/// A chargeback leads from a consistent state to a consistent state.
pub proof fn lemma_chargeback_consistent(s: LedgerState, r: InputRecord)
    requires
        consistent(s),
    ensures
        consistent(chargeback_effect(s, r)),
{
    let after = chargeback_effect(s, r);
    if chargeback_verdict(s, r) is Ok {
        assert(stored_ok(s, r.tx_id));
        assert forall|tx_id: u32| #[trigger] after.txs.contains_key(tx_id) implies stored_ok(
            after,
            tx_id,
        ) by {
            assert(stored_ok(s, tx_id));
        }
        assert forall|client_id: u16| #[trigger]
            after.accounts.contains_key(client_id) implies account_ok(after, client_id) by {
            assert(account_ok(s, client_id));
        }
    }
}

/// The state before any record is consistent.
pub proof fn lemma_empty_consistent()
    ensures
        consistent(empty_state()),
{
}

/// Every record leads from a consistent state to a consistent state.
pub proof fn lemma_step_consistent(s: LedgerState, r: InputRecord)
    requires
        consistent(s),
    ensures
        consistent(step(s, r)),
{
    match r.tx_type {
        TxType::Deposit => lemma_deposit_consistent(s, r),
        TxType::Withdrawal => lemma_withdraw_consistent(s, r),
        TxType::Dispute => lemma_dispute_consistent(s, r),
        TxType::Resolve => lemma_resolve_consistent(s, r),
        TxType::Chargeback => lemma_chargeback_consistent(s, r),
    }
}

/// Every sequence of records leads from a consistent state to a consistent
/// state.
pub proof fn lemma_replay_consistent(s: LedgerState, records: Seq<InputRecord>)
    requires
        consistent(s),
    ensures
        consistent(replay(s, records)),
    decreases records.len(),
{
    if records.len() > 0 {
        lemma_replay_consistent(s, records.drop_last());
        lemma_step_consistent(replay(s, records.drop_last()), records.last());
    }
}

} // verus!
