//! Solvency tracking for borrowers of a collateralised lending market.
//!
//! The crate keeps a ledger of loan positions, applies the borrow, repay,
//! deposit and withdraw events of a chain feed to it, and groups borrowers by
//! the collateral price at which they become liquidatable. Amounts are exact
//! decimals; every function states its result over mathematical models of
//! the data and is machine-checked against that statement.

pub mod anchor;
pub mod cache;
pub mod decimal;
pub mod event;
pub mod mantle;
pub mod string_map;
pub mod text;
