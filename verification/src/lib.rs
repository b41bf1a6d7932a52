//! Cross-margin lending and trading ledger: pooled token deposits and
//! borrows, interest accrual through per-token indexes, oracle-based
//! collateral valuation, and incentive-bounded partial liquidation.
//!
//! All balances and indexes are 64.64 unsigned fixed-point numbers; every
//! arithmetic step is checked and an overflow aborts the whole operation.

pub mod fixedpoint;

pub mod cluster;

pub mod error;

pub mod state;

pub mod valuation;

pub mod processor;

pub mod laws;
