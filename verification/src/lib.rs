//! Deterministic settlement core of a small on-chain game economy.
//!
//! The crate implements the state-transition engines behind escrow-backed
//! player-vs-player duels, multi-resource staking with cooldown-gated reward
//! accrual, and time-locked crafting chains.  Every operation is a pure
//! transition over explicit ledgers: the hosting environment supplies the
//! caller identity, attached payments, clocks and the public random seed as
//! plain values, and receives back a list of token actions (mint, burn,
//! transfer) to perform.

pub mod arena;
pub mod citizen;
pub mod effects;
pub mod escrow;
pub mod markers;
pub mod ore;
pub mod pairs;
pub mod resource;
pub mod snow;
pub mod stakes;
pub mod staking;
pub mod timer;
pub mod tokens;
pub mod tools;
