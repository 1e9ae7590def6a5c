//! A two-token liquidity pool, modelled as a verified state machine.
pub mod analytics;
pub mod contract;
pub mod fees;
pub mod ledger;
pub mod liquidity;
pub mod math;
pub mod pausable;
pub mod state;
pub mod swap;
pub mod types;
pub mod laws;
