//! A verified token ledger: account balances and delegated spending
//! allowances, mutated only through a small set of operations that preserve
//! supply conservation, and which report each successful mutation as an event.

pub mod account;
pub mod event;
pub mod laws;
pub mod ledger;
