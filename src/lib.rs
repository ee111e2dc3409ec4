//! Settlement core of a small ledger: exact fixed-point amounts, per-client
//! accounts, and the deposit / withdrawal / dispute state machine.

pub mod account;
pub mod account_transactions;
pub mod amount;
pub mod guarantees;
