//! A fungible-token ledger: account balances, transfers, mints, burns and
//! rewards under conservation and authorization rules, with an append-only
//! transaction log and time-windowed replay protection.
//!
//! The ledger is an explicit service object ([`ledger::Ledger`]) owning its
//! stores; every operation is a method taking the service by exclusive
//! reference together with the already-authenticated caller identity and
//! the observed time. Each operation's contract states the exact state
//! transition and result; the global invariants — conservation of supply,
//! the supply cap, gapless transaction ids — are established at
//! initialization and preserved by every operation, and the cross-call
//! laws (replay protection, conservation of a transfer, the boundary
//! failures) are proved in [`laws`].

pub mod account;
pub mod arith;
pub mod balances;
pub mod config;
pub mod dedup;
pub mod errors;
pub mod fingerprint;
pub mod laws;
pub mod ledger;
pub mod records;
pub mod rewards;
pub mod types;
pub mod validation;
