//! A verified ledger of client accounts driven by a stream of payment
//! transactions: deposits, withdrawals, disputes, resolves and chargebacks.
//!
//! Records are applied one at a time, in order, by `Transaction::process`
//! (or a whole batch by `process_all`). Each rule's effect on the ledger and
//! on the transaction history is stated exactly by the spec function
//! `payments::step`, and the laws that the rules obey are proved in `laws`.

pub mod account;
pub mod amount;
pub mod history;
pub mod laws;
pub mod ledger;
pub mod payments;
pub mod record;

pub use account::{Amount, Client};
pub use amount::{amount_parts, parse_amount};
pub use history::{Entry, TxHistory};
pub use ledger::Ledger;
pub use payments::{Outcome, Transaction, TxError, TxKind, process_all};
pub use record::kind_from_tag;
