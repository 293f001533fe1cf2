//! A ledger of client accounts that applies deposits, withdrawals, disputes,
//! resolves and chargebacks with fixed-point arithmetic and a per-transaction
//! dispute state machine.

pub mod account;
pub mod ledger;
pub mod laws;
