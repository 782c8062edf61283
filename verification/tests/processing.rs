use txledger::{
    handle_chargeback, handle_deposit, handle_dispute, handle_resolve, handle_withdraw,
    is_client_locked, output_rows, process_input_record, process_record, process_records,
    to_decimal, DepositState, InputRecord, Ledger, OutputRecord, Rejection, TxType,
};

fn record(tx_type: TxType, client_id: u16, tx_id: u32, amount: Option<f64>) -> InputRecord {
    InputRecord {
        tx_type,
        deposit_state: DepositState::default(),
        client_id,
        tx_id,
        amount: amount.map(|value| (value * 1e4).round() as i64),
    }
}

fn deposit(client_id: u16, tx_id: u32, amount: f64) -> InputRecord {
    record(TxType::Deposit, client_id, tx_id, Some(amount))
}

fn withdrawal(client_id: u16, tx_id: u32, amount: f64) -> InputRecord {
    record(TxType::Withdrawal, client_id, tx_id, Some(amount))
}

fn dispute(client_id: u16, tx_id: u32) -> InputRecord {
    record(TxType::Dispute, client_id, tx_id, None)
}

fn resolve(client_id: u16, tx_id: u32) -> InputRecord {
    record(TxType::Resolve, client_id, tx_id, None)
}

fn chargeback(client_id: u16, tx_id: u32) -> InputRecord {
    record(TxType::Chargeback, client_id, tx_id, None)
}

fn parse_failure() -> csv::Error {
    let mut reader = csv::Reader::from_reader("type,client,tx,amount\ndeposit,1\n".as_bytes());
    let failure = reader.records().next().unwrap();
    failure.unwrap_err()
}

fn assert_amount(amount: i128, num: f32) {
    assert_eq!((num * 1e4) as i128, amount);
}

fn assert_balance(ledger: &Ledger, client_id: u16, expected: (i128, i128, i128, bool)) {
    let found = ledger.account(client_id).unwrap();
    assert_eq!((found.available, found.held, found.total, found.locked), expected);
}

fn text(units: i128) -> String {
    let d = to_decimal(units);
    format!("{}{}.{:04}", if d.negative { "-" } else { "" }, d.whole, d.fraction)
}

#[test]
fn basic_test() {
    let records = vec![
        Ok(deposit(1, 1, 0.0001)),
        Ok(deposit(2, 2, 2.0)),
        Ok(deposit(1, 1, 3.0)),
        Ok(withdrawal(2, 3, 2.0001)),
        Ok(deposit(3, 4, 0.0001)),
        Ok(withdrawal(3, 5, 0.0001)),
        Ok(deposit(4, 6, 1000000000.0)),
        Ok(withdrawal(4, 7, -1.0)),
        Ok(deposit(4, 8, -1.0)),
    ];
    let mut ledger = Ledger::new();
    process_records(records, &mut ledger);

    let rows = output_rows(ledger.client_map());
    assert_eq!(rows.len(), 4);
    for (client_id, output_record) in rows {
        let available = text(output_record.available);
        let held = text(output_record.held);
        let total = text(output_record.total);
        if client_id == 1 {
            assert_eq!(available, "0.0001");
            assert_eq!(total, "0.0001");
            assert_eq!(held, "0.0000");
        }
        if client_id == 2 {
            assert!(available == "2.0000");
            assert!(total == "2.0000");
            assert_eq!(held, "0.0000");
        }
        if client_id == 3 {
            assert_eq!(available, "0.0000");
            assert_eq!(total, "0.0000");
            assert_eq!(held, "0.0000");
        }
        if client_id == 4 {
            assert_eq!(available, "1000000000.0000");
            assert_eq!(total, "1000000000.0000");
            assert_eq!(held, "0.0000");
        }
    }
}

#[test]
fn disputes_test() {
    let mut ledger = Ledger::new();
    let mut iter = vec![
        deposit(1, 1, 500.0),
        deposit(2, 2, 5.0),
        dispute(1, 1),
        dispute(1, 2),
        resolve(1, 1),
        dispute(1, 1),
        deposit(1, 3, 5.0),
        chargeback(1, 1),
        deposit(1, 4, 10.0),
        withdrawal(1, 5, 1.0),
    ]
    .into_iter()
    .map(Ok::<InputRecord, csv::Error>);

    process_input_record(iter.next().unwrap(), &mut ledger);
    process_input_record(iter.next().unwrap(), &mut ledger);

    process_input_record(iter.next().unwrap(), &mut ledger);
    {
        let client1_record = ledger.account(1).unwrap();

        assert_amount(client1_record.held, 500_f32);
        assert_amount(client1_record.available, 0_f32);
        assert_amount(client1_record.total, 500_f32);
        assert!(!client1_record.locked);

        let tx_1 = ledger.transaction(1).unwrap();
        assert!(tx_1.deposit_state == DepositState::InDispute);
    }

    process_input_record(iter.next().unwrap(), &mut ledger);
    {
        let client2_record = ledger.account(2).unwrap();
        assert_amount(client2_record.held, 0_f32);
        assert_amount(client2_record.available, 5_f32);
        assert_amount(client2_record.total, 5_f32);
        assert!(!client2_record.locked);

        let tx_2 = ledger.transaction(2).unwrap();
        assert!(tx_2.deposit_state == DepositState::Deposited);
    }

    process_input_record(iter.next().unwrap(), &mut ledger);
    {
        let client1_record = ledger.account(1).unwrap();
        assert_amount(client1_record.held, 0_f32);
        assert_amount(client1_record.available, 500_f32);
        assert_amount(client1_record.total, 500_f32);
        assert!(!client1_record.locked);

        let tx_1 = ledger.transaction(1).unwrap();
        assert!(tx_1.deposit_state == DepositState::Deposited);
    }

    process_input_record(iter.next().unwrap(), &mut ledger);
    {
        let client1_record = ledger.account(1).unwrap();
        assert_amount(client1_record.held, 500_f32);
        assert_amount(client1_record.available, 0_f32);
        assert_amount(client1_record.total, 500_f32);
        assert!(!client1_record.locked);

        let tx_1 = ledger.transaction(1).unwrap();
        assert!(tx_1.deposit_state == DepositState::InDispute);
    }

    process_input_record(iter.next().unwrap(), &mut ledger);
    {
        let client1_record = ledger.account(1).unwrap();
        assert_amount(client1_record.held, 500_f32);
        assert_amount(client1_record.available, 5_f32);
        assert_amount(client1_record.total, 505_f32);
        assert!(!client1_record.locked);
    }

    process_input_record(iter.next().unwrap(), &mut ledger);
    {
        let client1_record = ledger.account(1).unwrap();
        assert_amount(client1_record.held, 0_f32);
        assert_amount(client1_record.available, 5_f32);
        assert_amount(client1_record.total, 5_f32);
        assert!(client1_record.locked);
    }

    process_input_record(iter.next().unwrap(), &mut ledger);
    {
        let client1_record = ledger.account(1).unwrap();
        assert_amount(client1_record.held, 0_f32);
        assert_amount(client1_record.available, 5_f32);
        assert_amount(client1_record.total, 5_f32);
        assert!(client1_record.locked);
    }

    process_input_record(iter.next().unwrap(), &mut ledger);
    {
        let client1_record = ledger.account(1).unwrap();
        assert_amount(client1_record.held, 0_f32);
        assert_amount(client1_record.available, 5_f32);
        assert_amount(client1_record.total, 5_f32);
        assert!(client1_record.locked);
    }
}

#[test]
fn new_ledger_is_empty() {
    let ledger = Ledger::new();
    assert!(ledger.account(1).is_none());
    assert!(ledger.transaction(1).is_none());
    assert!(ledger.client_map().is_empty());
}

#[test]
fn new_output_record_holds_the_amount_as_available() {
    let output_record = OutputRecord::new(1234);
    assert_eq!(output_record.available, 1234);
    assert_eq!(output_record.held, 0);
    assert_eq!(output_record.total, 1234);
    assert!(!output_record.locked);
}

#[test]
fn default_deposit_state_is_not_applicable() {
    assert_eq!(DepositState::default(), DepositState::NotApplicable);
}

#[test]
fn deposit_credits_available_and_total() {
    let mut ledger = Ledger::new();
    assert_eq!(handle_deposit(deposit(7, 1, 1.5), &mut ledger), Ok(()));
    assert_balance(&ledger, 7, (15_000, 0, 15_000, false));
    assert_eq!(handle_deposit(deposit(7, 2, 0.2501), &mut ledger), Ok(()));
    assert_balance(&ledger, 7, (17_501, 0, 17_501, false));
    let kept = ledger.transaction(2).unwrap();
    assert_eq!(kept.deposit_state, DepositState::Deposited);
    assert_eq!(kept.client_id, 7);
    assert_eq!(kept.tx_id, 2);
    assert_eq!(kept.amount, Some(2_501));
    assert_eq!(kept.tx_type, TxType::Deposit);
}

#[test]
fn deposit_leaves_held_and_other_clients_alone() {
    let mut ledger = Ledger::new();
    assert_eq!(handle_deposit(deposit(1, 1, 10.0), &mut ledger), Ok(()));
    assert_eq!(handle_deposit(deposit(2, 2, 4.0), &mut ledger), Ok(()));
    assert_eq!(handle_dispute(&dispute(1, 1), &mut ledger), Ok(()));
    assert_eq!(handle_deposit(deposit(1, 3, 2.5), &mut ledger), Ok(()));
    assert_balance(&ledger, 1, (25_000, 100_000, 125_000, false));
    assert_balance(&ledger, 2, (40_000, 0, 40_000, false));
}

#[test]
fn deposit_of_zero_is_applied() {
    let mut ledger = Ledger::new();
    assert_eq!(handle_deposit(deposit(1, 1, 0.0), &mut ledger), Ok(()));
    assert_balance(&ledger, 1, (0, 0, 0, false));
    assert!(ledger.transaction(1).is_some());
}

#[test]
fn deposit_without_amount_is_rejected() {
    let mut ledger = Ledger::new();
    let missing = record(TxType::Deposit, 1, 1, None);
    assert_eq!(handle_deposit(missing, &mut ledger), Err(Rejection::MissingAmount));
    assert!(ledger.account(1).is_none());
    assert!(ledger.transaction(1).is_none());
}

#[test]
fn deposit_of_negative_amount_is_rejected() {
    let mut ledger = Ledger::new();
    assert_eq!(handle_deposit(deposit(1, 1, -0.5), &mut ledger), Err(Rejection::NegativeAmount));
    assert!(ledger.account(1).is_none());
    assert!(ledger.transaction(1).is_none());
}

#[test]
fn withdrawal_without_amount_or_with_negative_amount_is_rejected() {
    let mut ledger = Ledger::new();
    assert_eq!(handle_deposit(deposit(1, 1, 5.0), &mut ledger), Ok(()));
    let missing = record(TxType::Withdrawal, 1, 2, None);
    assert_eq!(handle_withdraw(missing, &mut ledger), Err(Rejection::MissingAmount));
    assert_eq!(
        handle_withdraw(withdrawal(1, 3, -1.0), &mut ledger),
        Err(Rejection::NegativeAmount)
    );
    assert_balance(&ledger, 1, (50_000, 0, 50_000, false));
    assert!(ledger.transaction(2).is_none());
    assert!(ledger.transaction(3).is_none());
    assert!(ledger.account(2).is_none());
}

#[test]
fn withdrawal_debits_available_and_total() {
    let mut ledger = Ledger::new();
    assert_eq!(handle_deposit(deposit(1, 1, 5.0), &mut ledger), Ok(()));
    assert_eq!(handle_withdraw(withdrawal(1, 2, 1.25), &mut ledger), Ok(()));
    assert_balance(&ledger, 1, (37_500, 0, 37_500, false));
    let kept = ledger.transaction(2).unwrap();
    assert_eq!(kept.deposit_state, DepositState::NotApplicable);
    assert_eq!(kept.amount, Some(12_500));
    assert_eq!(handle_withdraw(withdrawal(1, 3, 3.75), &mut ledger), Ok(()));
    assert_balance(&ledger, 1, (0, 0, 0, false));
}

#[test]
fn withdrawal_beyond_available_is_rejected() {
    let mut ledger = Ledger::new();
    assert_eq!(handle_deposit(deposit(1, 1, 5.0), &mut ledger), Ok(()));
    assert_eq!(
        handle_withdraw(withdrawal(1, 2, 5.0001), &mut ledger),
        Err(Rejection::InsufficientFunds)
    );
    assert_balance(&ledger, 1, (50_000, 0, 50_000, false));
    assert!(ledger.transaction(2).is_none());
    assert_eq!(handle_withdraw(withdrawal(1, 2, 5.0), &mut ledger), Ok(()));
    assert_balance(&ledger, 1, (0, 0, 0, false));
}

#[test]
fn withdrawal_counts_only_what_is_available() {
    let mut ledger = Ledger::new();
    assert_eq!(handle_deposit(deposit(1, 1, 5.0), &mut ledger), Ok(()));
    assert_eq!(handle_deposit(deposit(1, 2, 1.0), &mut ledger), Ok(()));
    assert_eq!(handle_dispute(&dispute(1, 1), &mut ledger), Ok(()));
    assert_eq!(
        handle_withdraw(withdrawal(1, 3, 2.0), &mut ledger),
        Err(Rejection::InsufficientFunds)
    );
    assert_balance(&ledger, 1, (10_000, 50_000, 60_000, false));
}

#[test]
fn withdrawal_for_unknown_client_leaves_an_empty_account() {
    let mut ledger = Ledger::new();
    assert_eq!(
        handle_withdraw(withdrawal(9, 9, 3.0), &mut ledger),
        Err(Rejection::InsufficientFunds)
    );
    assert_balance(&ledger, 9, (0, 0, 0, false));
    assert!(ledger.transaction(9).is_none());
    assert_eq!(handle_dispute(&dispute(9, 9), &mut ledger), Err(Rejection::UnknownTransaction));
    let rows = output_rows(ledger.client_map());
    assert_eq!(rows.len(), 1);
    assert_eq!(rows[0].0, 9);
    assert_eq!(
        (rows[0].1.available, rows[0].1.held, rows[0].1.total, rows[0].1.locked),
        (0, 0, 0, false)
    );
}

#[test]
fn resubmitted_transaction_is_rejected_whatever_client_and_amount() {
    let mut ledger = Ledger::new();
    assert_eq!(handle_deposit(deposit(1, 1, 5.0), &mut ledger), Ok(()));
    assert_eq!(handle_withdraw(withdrawal(1, 2, 1.0), &mut ledger), Ok(()));
    let again = [
        deposit(1, 1, 5.0),
        deposit(2, 1, 9.0),
        withdrawal(1, 1, 1.0),
        deposit(1, 2, 1.0),
        withdrawal(3, 2, 0.5),
        record(TxType::Deposit, 1, 1, None),
    ];
    for resubmitted in again {
        assert_eq!(
            process_record(resubmitted, &mut ledger),
            Err(Rejection::DuplicateTransaction)
        );
        assert_balance(&ledger, 1, (40_000, 0, 40_000, false));
        assert!(ledger.account(2).is_none());
        assert!(ledger.account(3).is_none());
        assert_eq!(ledger.transaction(1).unwrap().amount, Some(50_000));
        assert_eq!(ledger.transaction(1).unwrap().client_id, 1);
        assert_eq!(ledger.transaction(2).unwrap().amount, Some(10_000));
        assert_eq!(ledger.client_map().len(), 1);
    }
}

#[test]
fn dispute_of_unknown_transaction_is_rejected() {
    let mut ledger = Ledger::new();
    assert_eq!(handle_deposit(deposit(1, 1, 5.0), &mut ledger), Ok(()));
    assert_eq!(handle_dispute(&dispute(1, 2), &mut ledger), Err(Rejection::UnknownTransaction));
    assert_eq!(handle_resolve(&resolve(1, 2), &mut ledger), Err(Rejection::UnknownTransaction));
    assert_eq!(
        handle_chargeback(&chargeback(1, 2), &mut ledger),
        Err(Rejection::UnknownTransaction)
    );
    assert_balance(&ledger, 1, (50_000, 0, 50_000, false));
    assert_eq!(ledger.transaction(1).unwrap().deposit_state, DepositState::Deposited);
}

#[test]
fn dispute_by_another_client_is_rejected() {
    let mut ledger = Ledger::new();
    assert_eq!(handle_deposit(deposit(1, 1, 5.0), &mut ledger), Ok(()));
    assert_eq!(handle_deposit(deposit(2, 2, 7.0), &mut ledger), Ok(()));
    assert_eq!(handle_dispute(&dispute(2, 1), &mut ledger), Err(Rejection::OwnershipMismatch));
    assert_eq!(handle_dispute(&dispute(3, 1), &mut ledger), Err(Rejection::OwnershipMismatch));
    assert_balance(&ledger, 1, (50_000, 0, 50_000, false));
    assert_balance(&ledger, 2, (70_000, 0, 70_000, false));
    assert!(ledger.account(3).is_none());
    assert_eq!(ledger.transaction(1).unwrap().deposit_state, DepositState::Deposited);
    assert_eq!(handle_dispute(&dispute(1, 1), &mut ledger), Ok(()));
    assert_eq!(handle_resolve(&resolve(2, 1), &mut ledger), Err(Rejection::OwnershipMismatch));
    assert_eq!(
        handle_chargeback(&chargeback(2, 1), &mut ledger),
        Err(Rejection::OwnershipMismatch)
    );
    assert_balance(&ledger, 1, (0, 50_000, 50_000, false));
    assert_balance(&ledger, 2, (70_000, 0, 70_000, false));
}

#[test]
fn dispute_needs_a_deposit_that_is_not_in_dispute() {
    let mut ledger = Ledger::new();
    assert_eq!(handle_deposit(deposit(1, 1, 5.0), &mut ledger), Ok(()));
    assert_eq!(handle_withdraw(withdrawal(1, 2, 1.0), &mut ledger), Ok(()));
    assert_eq!(handle_dispute(&dispute(1, 2), &mut ledger), Err(Rejection::InvalidState));
    assert_eq!(handle_dispute(&dispute(1, 1), &mut ledger), Ok(()));
    assert_eq!(handle_dispute(&dispute(1, 1), &mut ledger), Err(Rejection::InvalidState));
    assert_balance(&ledger, 1, (-10_000, 50_000, 40_000, false));
}

#[test]
fn resolve_and_chargeback_need_a_deposit_in_dispute() {
    let mut ledger = Ledger::new();
    assert_eq!(handle_deposit(deposit(1, 1, 5.0), &mut ledger), Ok(()));
    assert_eq!(handle_resolve(&resolve(1, 1), &mut ledger), Err(Rejection::InvalidState));
    assert_eq!(handle_chargeback(&chargeback(1, 1), &mut ledger), Err(Rejection::InvalidState));
    assert_balance(&ledger, 1, (50_000, 0, 50_000, false));
    assert_eq!(ledger.transaction(1).unwrap().deposit_state, DepositState::Deposited);
}

#[test]
fn dispute_then_resolve_restores_the_balances() {
    let mut ledger = Ledger::new();
    assert_eq!(handle_deposit(deposit(1, 1, 5.0), &mut ledger), Ok(()));
    assert_eq!(handle_deposit(deposit(1, 2, 2.5), &mut ledger), Ok(()));
    assert_eq!(handle_withdraw(withdrawal(1, 3, 1.0), &mut ledger), Ok(()));
    assert_balance(&ledger, 1, (65_000, 0, 65_000, false));
    assert_eq!(handle_dispute(&dispute(1, 2), &mut ledger), Ok(()));
    assert_balance(&ledger, 1, (40_000, 25_000, 65_000, false));
    assert_eq!(ledger.transaction(2).unwrap().deposit_state, DepositState::InDispute);
    assert_eq!(handle_resolve(&resolve(1, 2), &mut ledger), Ok(()));
    assert_balance(&ledger, 1, (65_000, 0, 65_000, false));
    assert_eq!(ledger.transaction(2).unwrap().deposit_state, DepositState::Deposited);
    assert_eq!(ledger.transaction(2).unwrap().amount, Some(25_000));
}

#[test]
fn chargeback_locks_the_account_for_every_kind_of_record() {
    let mut ledger = Ledger::new();
    assert_eq!(handle_deposit(deposit(1, 1, 5.0), &mut ledger), Ok(()));
    assert_eq!(handle_deposit(deposit(1, 2, 3.0), &mut ledger), Ok(()));
    assert_eq!(handle_deposit(deposit(1, 3, 1.0), &mut ledger), Ok(()));
    assert_eq!(handle_dispute(&dispute(1, 1), &mut ledger), Ok(()));
    assert_eq!(handle_dispute(&dispute(1, 3), &mut ledger), Ok(()));
    assert!(!is_client_locked(1, ledger.client_map()));
    assert_eq!(handle_chargeback(&chargeback(1, 1), &mut ledger), Ok(()));
    assert!(is_client_locked(1, ledger.client_map()));
    assert!(!is_client_locked(2, ledger.client_map()));
    assert_balance(&ledger, 1, (30_000, 10_000, 40_000, true));

    assert_eq!(process_record(deposit(1, 10, 1.0), &mut ledger), Err(Rejection::AccountLocked));
    assert_eq!(
        process_record(withdrawal(1, 11, 1.0), &mut ledger),
        Err(Rejection::AccountLocked)
    );
    assert_eq!(process_record(dispute(1, 2), &mut ledger), Err(Rejection::AccountLocked));
    assert_eq!(process_record(resolve(1, 3), &mut ledger), Err(Rejection::AccountLocked));
    assert_eq!(process_record(chargeback(1, 3), &mut ledger), Err(Rejection::AccountLocked));
    assert_balance(&ledger, 1, (30_000, 10_000, 40_000, true));
    assert!(ledger.transaction(10).is_none());
    assert!(ledger.transaction(11).is_none());
    assert_eq!(ledger.transaction(1).unwrap().deposit_state, DepositState::InDispute);
    assert_eq!(ledger.transaction(2).unwrap().deposit_state, DepositState::Deposited);
    assert_eq!(ledger.transaction(3).unwrap().deposit_state, DepositState::InDispute);

    assert_eq!(process_record(deposit(2, 12, 1.0), &mut ledger), Ok(()));
    assert_balance(&ledger, 2, (10_000, 0, 10_000, false));
}

#[test]
fn deposit_dispute_resolve_chargeback_scenario() {
    let mut ledger = Ledger::new();
    assert_eq!(process_record(deposit(1, 1, 5.0), &mut ledger), Ok(()));
    assert_balance(&ledger, 1, (50_000, 0, 50_000, false));
    assert_eq!(process_record(dispute(1, 1), &mut ledger), Ok(()));
    assert_balance(&ledger, 1, (0, 50_000, 50_000, false));
    assert_eq!(process_record(resolve(1, 1), &mut ledger), Ok(()));
    assert_balance(&ledger, 1, (50_000, 0, 50_000, false));
    assert_eq!(process_record(dispute(1, 1), &mut ledger), Ok(()));
    assert_eq!(ledger.account(1).unwrap().held, 50_000);
    assert_eq!(process_record(chargeback(1, 1), &mut ledger), Ok(()));
    assert_balance(&ledger, 1, (0, 0, 0, true));
    assert_eq!(process_record(deposit(1, 2, 5.0), &mut ledger), Err(Rejection::AccountLocked));
    assert_balance(&ledger, 1, (0, 0, 0, true));
}

#[test]
fn total_is_available_plus_held_after_every_record() {
    let records = vec![
        deposit(1, 1, 5.0),
        deposit(2, 2, 7.5),
        withdrawal(1, 3, 1.5),
        dispute(1, 1),
        deposit(1, 4, 0.0003),
        withdrawal(3, 5, 1.0),
        resolve(1, 1),
        dispute(2, 2),
        dispute(1, 4),
        chargeback(2, 2),
        deposit(2, 6, 1.0),
        withdrawal(1, 7, 100.0),
        chargeback(1, 4),
    ];
    let mut ledger = Ledger::new();
    for next in records {
        let _ = process_record(next, &mut ledger);
        for (_, found) in output_rows(ledger.client_map()) {
            assert_eq!(found.total, found.available + found.held);
        }
    }
    assert_balance(&ledger, 1, (35_000, 0, 35_000, true));
    assert_balance(&ledger, 2, (0, 0, 0, true));
    assert_balance(&ledger, 3, (0, 0, 0, false));
}

#[test]
fn handlers_do_what_the_dispatch_does() {
    let mut by_kind = Ledger::new();
    let mut dispatched = Ledger::new();
    assert_eq!(handle_deposit(deposit(1, 1, 2.0), &mut by_kind), Ok(()));
    assert_eq!(process_record(deposit(1, 1, 2.0), &mut dispatched), Ok(()));
    assert_eq!(handle_withdraw(withdrawal(1, 2, 0.5), &mut by_kind), Ok(()));
    assert_eq!(process_record(withdrawal(1, 2, 0.5), &mut dispatched), Ok(()));
    assert_eq!(handle_dispute(&dispute(1, 1), &mut by_kind), Ok(()));
    assert_eq!(process_record(dispute(1, 1), &mut dispatched), Ok(()));
    assert_eq!(handle_resolve(&resolve(1, 1), &mut by_kind), Ok(()));
    assert_eq!(process_record(resolve(1, 1), &mut dispatched), Ok(()));
    assert_eq!(handle_dispute(&dispute(1, 1), &mut by_kind), Ok(()));
    assert_eq!(process_record(dispute(1, 1), &mut dispatched), Ok(()));
    assert_eq!(handle_chargeback(&chargeback(1, 1), &mut by_kind), Ok(()));
    assert_eq!(process_record(chargeback(1, 1), &mut dispatched), Ok(()));
    assert_balance(&by_kind, 1, (-5_000, 0, -5_000, true));
    assert_balance(&dispatched, 1, (-5_000, 0, -5_000, true));
}

#[test]
fn parse_failures_are_skipped() {
    let mut ledger = Ledger::new();
    process_input_record(Ok(deposit(1, 1, 5.0)), &mut ledger);
    process_input_record(Err(parse_failure()), &mut ledger);
    assert_balance(&ledger, 1, (50_000, 0, 50_000, false));
    assert_eq!(ledger.client_map().len(), 1);

    let mut replayed = Ledger::new();
    process_records(
        vec![
            Err(parse_failure()),
            Ok(deposit(1, 1, 5.0)),
            Err(parse_failure()),
            Ok(withdrawal(1, 2, 2.0)),
            Ok(withdrawal(1, 2, 2.0)),
            Err(parse_failure()),
        ],
        &mut replayed,
    );
    assert_balance(&replayed, 1, (30_000, 0, 30_000, false));
    assert_eq!(replayed.client_map().len(), 1);
}

#[test]
fn processing_nothing_changes_nothing() {
    let mut ledger = Ledger::new();
    process_records(Vec::new(), &mut ledger);
    assert!(ledger.client_map().is_empty());
    assert!(output_rows(ledger.client_map()).is_empty());
}

#[test]
fn largest_amounts_do_not_overflow() {
    let mut ledger = Ledger::new();
    let largest = i64::MAX;
    for tx_id in 0..4u32 {
        let next = InputRecord {
            tx_type: TxType::Deposit,
            deposit_state: DepositState::NotApplicable,
            client_id: 1,
            tx_id,
            amount: Some(largest),
        };
        assert_eq!(process_record(next, &mut ledger), Ok(()));
    }
    let sum = 4 * (largest as i128);
    assert_balance(&ledger, 1, (sum, 0, sum, false));
    assert_eq!(process_record(dispute(1, 0), &mut ledger), Ok(()));
    assert_eq!(process_record(dispute(1, 1), &mut ledger), Ok(()));
    assert_balance(&ledger, 1, (sum - 2 * (largest as i128), 2 * (largest as i128), sum, false));
    assert_eq!(text(sum), "3689348814741910.3228");
}
