//! Triangular-arbitrage engine: ring scoring, lot/tick normalisation and the
//! order execution state machines, over fixed-point amounts.

pub mod fixed;
pub mod constraints;
pub mod snapshot;
pub mod ring;
pub mod polling;
pub mod execution;
pub mod control;
pub mod exchangeinfo;
pub mod discovery;
pub mod error;
