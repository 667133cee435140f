//! A ledger-resident payment-distribution engine.
//!
//! The library stores per-owner distribution policies and rules
//! registrations, validates proposed distribution plans (count, sum and
//! integrity-hash invariants) before any value moves, and executes a
//! validated plan as an all-or-nothing batch of transfers against a ledger
//! of accounts.

pub mod bytes32;
pub mod errors;
pub mod executor;
pub mod ledger;
pub mod policy;
pub mod rules;
pub mod verify;
