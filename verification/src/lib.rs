//! Client-side core of a concentrated-liquidity AMM: deterministic account
//! address derivation, pool-state decoding, tick-array bitmap navigation and
//! position enumeration.

pub mod addr;
pub mod config;
pub mod bytes;
pub mod navigate;
pub mod positions;
pub mod seeds;
pub mod state;
pub mod support;
pub mod util;
