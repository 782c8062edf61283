//! A transaction ledger: deposits, withdrawals, disputes, resolves and
//! chargebacks are replayed in order against per-client accounts held in
//! fixed-point arithmetic.

pub mod consistency;
pub mod laws;
pub mod ledger;
pub mod model;
pub mod record;
pub mod report;

pub use ledger::{
    handle_chargeback, handle_deposit, handle_dispute, handle_resolve, handle_withdraw,
    is_client_locked, process_input_record, process_record, process_records, Ledger,
};
pub use record::{DepositState, InputRecord, OutputRecord, Rejection, TxType, SCALE};
pub use report::{client_ids, output_rows, sorted_client_ids, to_decimal, Decimal};
