//! A small resource-and-token economy keyed by (owner, island name) pairs.
//!
//! Owners discover islands, gather resources on them at a time-gated rate,
//! and mint tokens from gathered resources. The whole engine is a pure
//! function of the persisted state, the caller, the logical time and the
//! requested operation.

pub mod assoc;
pub mod contract;
pub mod error;
pub mod laws;
pub mod msg;
pub mod state;

use vstd::prelude::*;

verus! {

/// Tokens minted per unit of gathered resource.
pub const TOKEN_PER_RESOURCE: u128 = 100;

/// Minimum number of seconds between two successful gathers on one island.
pub const MIN_GATHER_INTERVAL: u64 = 60;

} // verus!
