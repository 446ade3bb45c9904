//! A per-client transaction ledger.
//!
//! Accounts hold an available and a held balance in fixed-point units of
//! one ten-thousandth of the currency. A stream of typed events (deposit,
//! withdraw, dispute, resolve, chargeback) drives each account through a
//! verified state machine: duplicate transaction ids are rejected, the
//! available balance never goes negative, disputes move a prior deposit's
//! amount between the two balances, and a chargeback locks the account
//! for good.

pub mod account;
pub mod assoc;
pub mod engine;
pub mod errors;
pub mod laws;
pub mod render;
pub mod transaction;
