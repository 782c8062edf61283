//! The ledger and the handlers that apply one record to it.

use std::collections::HashMap;
use vstd::prelude::*;
use crate::consistency::{
    consistent, lemma_chargeback_consistent, lemma_deposit_consistent, lemma_dispute_consistent,
    lemma_resolve_consistent, lemma_unlocked_bounds, lemma_withdraw_consistent, stored_ok,
};
use crate::laws::lemma_total_is_available_plus_held;
use crate::model::{
    balances, chargeback_effect, chargeback_verdict, deposit_effect, deposit_verdict,
    dispute_effect, dispute_verdict, empty_state, entry_rejection, reference_verdict, replay,
    resolve_effect, resolve_verdict, step, verdict, withdraw_effect, withdraw_verdict,
    LedgerState,
};
use crate::record::{DepositState, InputRecord, OutputRecord, Rejection, TxType};

verus! {

broadcast use vstd::std_specs::hash::group_hash_axioms;

/// The error of the `csv` crate: what the record source gives in place of a
/// record that it could not parse. Nothing is read from it.
#[verifier::external_type_specification]
#[verifier::external_body]
pub struct ExCsvError(csv::Error);

/// The state after one parse result was handled: a parsed record does what
/// `step` says, a failure nothing.
pub open spec fn feed(s: LedgerState, record_res: Result<InputRecord, csv::Error>) -> LedgerState {
    match record_res {
        Ok(record) => step(s, record),
        Err(_) => s,
    }
}

/// The records among the parse results, in their order.
pub open spec fn parsed(results: Seq<Result<InputRecord, csv::Error>>) -> Seq<InputRecord>
    decreases results.len(),
{
    if results.len() == 0 {
        Seq::empty()
    } else {
        match results.last() {
            Ok(record) => parsed(results.drop_last()).push(record),
            Err(_) => parsed(results.drop_last()),
        }
    }
}

/// The stored transactions and the accounts of one run.
pub struct Ledger {
    tx_map: HashMap<u32, InputRecord>,
    client_map: HashMap<u16, OutputRecord>,
}

impl View for Ledger {
    type V = LedgerState;

    closed spec fn view(&self) -> LedgerState {
        LedgerState { txs: self.tx_map@, accounts: balances(self.client_map@) }
    }
}

/// Replacing one record replaces one balance.
proof fn lemma_balances_insert(records: Map<u16, OutputRecord>, client_id: u16, record: OutputRecord)
    ensures
        balances(records.insert(client_id, record)) == balances(records).insert(
            client_id,
            record@,
        ),
{
    assert(balances(records.insert(client_id, record)) =~= balances(records).insert(
        client_id,
        record@,
    ));
}

impl Ledger {
    /// The invariant of a ledger: see `consistent`.
    pub open spec fn wf(&self) -> bool {
        consistent(self@)
    }

    /// A ledger without transactions and accounts.
    pub fn new() -> (ledger: Self)
        ensures
            ledger.wf(),
            ledger@ == empty_state(),
    {
        let ledger = Ledger { tx_map: HashMap::new(), client_map: HashMap::new() };
        assert(ledger@.accounts =~= Map::empty());
        ledger
    }

    /// The account of a client, if there is one. Its total is what is
    /// available plus what is held.
    pub fn account(&self, client_id: u16) -> (found: Option<OutputRecord>)
        ensures
            found is Some == self@.accounts.contains_key(client_id),
            found is Some ==> found->Some_0@ == self@.accounts[client_id],
            self.wf() && found is Some ==> found->Some_0.total == found->Some_0.available
                + found->Some_0.held,
    {
        match self.client_map.get(&client_id) {
            Some(record) => {
                proof {
                    if self.wf() {
                        lemma_total_is_available_plus_held(self@, client_id);
                    }
                }
                Some(*record)
            },
            None => None,
        }
    }

    /// The stored transaction of an id, if there is one.
    pub fn transaction(&self, tx_id: u32) -> (found: Option<InputRecord>)
        ensures
            found == if self@.txs.contains_key(tx_id) {
                Some(self@.txs[tx_id])
            } else {
                None
            },
    {
        match self.tx_map.get(&tx_id) {
            Some(record) => Some(*record),
            None => None,
        }
    }

    /// The accounts by client id.
    pub fn client_map(&self) -> (records: &HashMap<u16, OutputRecord>)
        ensures
            balances(records@) == self@.accounts,
    {
        &self.client_map
    }
}

/// Whether the client has an account that is locked.
pub fn is_client_locked(client_id: u16, client_map: &HashMap<u16, OutputRecord>) -> (locked: bool)
    ensures
        locked == (client_map@.contains_key(client_id) && client_map@[client_id].locked),
{
    if let Some(output_record) = client_map.get(&client_id) {
        if output_record.locked {
            return true;
        }
    }
    false
}

/// The checks that deposits and withdrawals share; gives the amount where
/// they pass.
fn check_entry(record: &InputRecord, ledger: &Ledger) -> (res: Result<i64, Rejection>)
    ensures
        match res {
            Ok(amount) => entry_rejection(ledger@, *record) is None && record.amount == Some(
                amount,
            ) && amount >= 0,
            Err(why) => entry_rejection(ledger@, *record) == Some(why),
        },
{
    if ledger.tx_map.contains_key(&record.tx_id) {
        return Err(Rejection::DuplicateTransaction);
    }
    if is_client_locked(record.client_id, &ledger.client_map) {
        return Err(Rejection::AccountLocked);
    }
    match record.amount {
        Some(amount) => {
            if amount < 0 {
                Err(Rejection::NegativeAmount)
            } else {
                Ok(amount)
            }
        },
        None => Err(Rejection::MissingAmount),
    }
}

/// Handles a deposit: a new transaction id, an account that is not locked
/// and an amount that is not negative are needed. The transaction is stored
/// as `Deposited` and the amount credited, to a new account where the client
/// has none.
pub fn handle_deposit(record: InputRecord, ledger: &mut Ledger) -> (res: Result<(), Rejection>)
    requires
        old(ledger).wf(),
    ensures
        final(ledger).wf(),
        res == deposit_verdict(old(ledger)@, record),
        final(ledger)@ == deposit_effect(old(ledger)@, record),
{
    let amount = match check_entry(&record, ledger) {
        Ok(amount) => amount,
        Err(why) => {
            return Err(why);
        },
    };
    proof {
        lemma_deposit_consistent(ledger@, record);
    }
    let client_id = record.client_id;
    let output_record = match ledger.client_map.get(&client_id) {
        Some(found) => {
            proof {
                lemma_unlocked_bounds(ledger@, client_id);
            }
            OutputRecord {
                available: found.available + amount as i128,
                held: found.held,
                total: found.total + amount as i128,
                locked: found.locked,
            }
        },
        None => OutputRecord::new(amount),
    };
    proof {
        lemma_balances_insert(ledger.client_map@, client_id, output_record);
    }
    let kept = InputRecord { deposit_state: DepositState::Deposited, ..record };
    ledger.tx_map.insert(record.tx_id, kept);
    ledger.client_map.insert(client_id, output_record);
    Ok(())
}

/// Handles a withdrawal: a new transaction id, an account that is not locked
/// and an amount that is not negative are needed, and the amount must be
/// available. A client without an account gets an empty one, and the
/// withdrawal is turned away. Only a withdrawal that is applied is stored.
pub fn handle_withdraw(record: InputRecord, ledger: &mut Ledger) -> (res: Result<(), Rejection>)
    requires
        old(ledger).wf(),
    ensures
        final(ledger).wf(),
        res == withdraw_verdict(old(ledger)@, record),
        final(ledger)@ == withdraw_effect(old(ledger)@, record),
{
    let amount = match check_entry(&record, ledger) {
        Ok(amount) => amount,
        Err(why) => {
            return Err(why);
        },
    };
    proof {
        lemma_withdraw_consistent(ledger@, record);
    }
    let client_id = record.client_id;
    let output_record = match ledger.client_map.get(&client_id) {
        Some(found) => {
            if amount as i128 > found.available {
                return Err(Rejection::InsufficientFunds);
            }
            proof {
                lemma_unlocked_bounds(ledger@, client_id);
            }
            OutputRecord {
                available: found.available - amount as i128,
                held: found.held,
                total: found.total - amount as i128,
                locked: found.locked,
            }
        },
        None => {
            let output_record = OutputRecord::new(0);
            proof {
                lemma_balances_insert(ledger.client_map@, client_id, output_record);
            }
            ledger.client_map.insert(client_id, output_record);
            return Err(Rejection::InsufficientFunds);
        },
    };
    proof {
        lemma_balances_insert(ledger.client_map@, client_id, output_record);
    }
    let kept = InputRecord { deposit_state: DepositState::NotApplicable, ..record };
    ledger.tx_map.insert(record.tx_id, kept);
    ledger.client_map.insert(client_id, output_record);
    Ok(())
}

/// The checks that disputes, resolves and chargebacks share; gives the stored
/// transaction, its amount and the client's account where they pass.
fn check_reference(record: &InputRecord, ledger: &Ledger, needed: DepositState) -> (res: Result<
    (InputRecord, i64, OutputRecord),
    Rejection,
>)
    requires
        ledger.wf(),
    ensures
        match res {
            Ok((kept, amount, account)) => {
                &&& reference_verdict(ledger@, *record, needed) is Ok
                &&& kept == ledger@.txs[record.tx_id]
                &&& kept.amount == Some(amount)
                &&& amount >= 0
                &&& ledger.client_map@.contains_key(record.client_id)
                &&& account == ledger.client_map@[record.client_id]
            },
            Err(why) => reference_verdict(ledger@, *record, needed) == Err::<(), Rejection>(why),
        },
{
    let kept = match ledger.tx_map.get(&record.tx_id) {
        Some(found) => *found,
        None => {
            return Err(Rejection::UnknownTransaction);
        },
    };
    if kept.client_id != record.client_id {
        return Err(Rejection::OwnershipMismatch);
    }
    if kept.deposit_state != needed {
        return Err(Rejection::InvalidState);
    }
    proof {
        assert(stored_ok(ledger@, record.tx_id));
    }
    // A stored transaction has an amount, and its client an account.
    let account = *ledger.client_map.get(&record.client_id).unwrap();
    if account.locked {
        return Err(Rejection::AccountLocked);
    }
    Ok((kept, kept.amount.unwrap(), account))
}

/// Handles a dispute: the transaction must be stored for this client as
/// `Deposited` and the account not locked. The transaction becomes
/// `InDispute` and its amount moves from available to held.
pub fn handle_dispute(record: &InputRecord, ledger: &mut Ledger) -> (res: Result<(), Rejection>)
    requires
        old(ledger).wf(),
    ensures
        final(ledger).wf(),
        res == dispute_verdict(old(ledger)@, *record),
        final(ledger)@ == dispute_effect(old(ledger)@, *record),
{
    let (kept, amount, account) = match check_reference(record, ledger, DepositState::Deposited) {
        Ok(found) => found,
        Err(why) => {
            return Err(why);
        },
    };
    proof {
        lemma_dispute_consistent(ledger@, *record);
        lemma_unlocked_bounds(ledger@, record.client_id);
    }
    let output_record = OutputRecord {
        available: account.available - amount as i128,
        held: account.held + amount as i128,
        total: account.total,
        locked: account.locked,
    };
    proof {
        lemma_balances_insert(ledger.client_map@, record.client_id, output_record);
    }
    ledger.tx_map.insert(
        record.tx_id,
        InputRecord { deposit_state: DepositState::InDispute, ..kept },
    );
    ledger.client_map.insert(record.client_id, output_record);
    Ok(())
}

/// Handles a resolve: the transaction must be stored for this client as
/// `InDispute` and the account not locked. The transaction becomes
/// `Deposited` again and its amount moves from held back to available.
pub fn handle_resolve(record: &InputRecord, ledger: &mut Ledger) -> (res: Result<(), Rejection>)
    requires
        old(ledger).wf(),
    ensures
        final(ledger).wf(),
        res == resolve_verdict(old(ledger)@, *record),
        final(ledger)@ == resolve_effect(old(ledger)@, *record),
{
    let (kept, amount, account) = match check_reference(record, ledger, DepositState::InDispute) {
        Ok(found) => found,
        Err(why) => {
            return Err(why);
        },
    };
    proof {
        lemma_resolve_consistent(ledger@, *record);
        lemma_unlocked_bounds(ledger@, record.client_id);
    }
    let output_record = OutputRecord {
        available: account.available + amount as i128,
        held: account.held - amount as i128,
        total: account.total,
        locked: account.locked,
    };
    proof {
        lemma_balances_insert(ledger.client_map@, record.client_id, output_record);
    }
    ledger.tx_map.insert(
        record.tx_id,
        InputRecord { deposit_state: DepositState::Deposited, ..kept },
    );
    ledger.client_map.insert(record.client_id, output_record);
    Ok(())
}

/// Handles a chargeback: the transaction must be stored for this client as
/// `InDispute` and the account not locked. Its amount leaves held and total,
/// and the account is locked.
pub fn handle_chargeback(record: &InputRecord, ledger: &mut Ledger) -> (res: Result<(), Rejection>)
    requires
        old(ledger).wf(),
    ensures
        final(ledger).wf(),
        res == chargeback_verdict(old(ledger)@, *record),
        final(ledger)@ == chargeback_effect(old(ledger)@, *record),
{
    let (kept, amount, account) = match check_reference(record, ledger, DepositState::InDispute) {
        Ok(found) => found,
        Err(why) => {
            return Err(why);
        },
    };
    proof {
        lemma_chargeback_consistent(ledger@, *record);
        lemma_unlocked_bounds(ledger@, record.client_id);
    }
    let output_record = OutputRecord {
        available: account.available,
        held: account.held - amount as i128,
        total: account.total - amount as i128,
        locked: true,
    };
    proof {
        lemma_balances_insert(ledger.client_map@, record.client_id, output_record);
    }
    ledger.client_map.insert(record.client_id, output_record);
    Ok(())
}

/// Handles a record of any kind, and says whether it was applied.
pub fn process_record(record: InputRecord, ledger: &mut Ledger) -> (res: Result<(), Rejection>)
    requires
        old(ledger).wf(),
    ensures
        final(ledger).wf(),
        res == verdict(old(ledger)@, record),
        final(ledger)@ == step(old(ledger)@, record),
{
    match record.tx_type {
        TxType::Deposit => handle_deposit(record, ledger),
        TxType::Withdrawal => handle_withdraw(record, ledger),
        TxType::Dispute => handle_dispute(&record, ledger),
        TxType::Resolve => handle_resolve(&record, ledger),
        TxType::Chargeback => handle_chargeback(&record, ledger),
    }
}

/// Handles what the record source gave: a record is handled as
/// `process_record` does, a record that could not be parsed is skipped.
/// Nothing is reported: a record that is turned away changes nothing but
/// what `step` says.
pub fn process_input_record(record_res: Result<InputRecord, csv::Error>, ledger: &mut Ledger)
    requires
        old(ledger).wf(),
    ensures
        final(ledger).wf(),
        final(ledger)@ == feed(old(ledger)@, record_res),
{
    match record_res {
        Ok(record) => {
            let _ = process_record(record, ledger);
        },
        Err(_) => {},
    }
}

/// Handles a whole input in order: the records that were parsed are
/// replayed, the others skipped.
pub fn process_records(records: Vec<Result<InputRecord, csv::Error>>, ledger: &mut Ledger)
    requires
        old(ledger).wf(),
    ensures
        final(ledger).wf(),
        final(ledger)@ == replay(old(ledger)@, parsed(records@)),
{
    let mut i: usize = 0;
    while i < records.len()
        invariant
            i <= records.len(),
            ledger.wf(),
            ledger@ == replay(old(ledger)@, parsed(records@.take(i as int))),
        decreases records.len() - i,
    {
        proof {
            assert(records@.take(i + 1).drop_last() == records@.take(i as int));
            let before = parsed(records@.take(i as int));
            if let Ok(record) = records@[i as int] {
                assert(before.push(record).drop_last() == before);
            }
        }
        match &records[i] {
            Ok(record) => {
                let _ = process_record(*record, ledger);
            },
            Err(_) => {},
        }
        i += 1;
    }
    proof {
        assert(records@.take(records.len() as int) == records@);
    }
}

} // verus!
