//! Accounting core of a collateralized synthetic-asset exchange: fixed-point
//! decimals, debt and vault interest accrual, and staking-round rotation.

pub mod decimal;
pub mod error;
pub mod account;
pub mod math;
pub mod utils;
