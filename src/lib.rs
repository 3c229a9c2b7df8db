//! Accounting core of a two-asset constant-product liquidity pool: pool
//! registration, proportional liquidity deposits and swaps, with every
//! balance change and every share amount stated exactly.

pub mod accounts;
pub mod curve;
pub mod instructions;

pub use accounts::{Address, AmmError, LiquidityPool, Mint, TokenAccount};
pub use instructions::{deposit, initialize, swap, Deposit, Initialize, PoolRegistry, Swap};
