//! Checks that a node's directly read database stays consistent with the chain
//! its RPC feed announces: the hash window the EVM needs is readable, and the
//! stored hash of each announced block is the announced one.
//!
//! The decisions live here as verified step functions; reading the database,
//! the network feed and the clock is left to the caller, who hands in plain
//! values.

pub mod cli;
pub mod hash;
pub mod integrity;
pub mod ledger;
pub mod monitor;
pub mod sync;
pub mod verify;
