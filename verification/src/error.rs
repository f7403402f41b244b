//! The failure taxonomy of the contract's operations.

use vstd::prelude::*;

verus! {

/// Every way an operation can fail. All failures are returned as values;
/// no verified operation panics, and a failing operation leaves the
/// persisted state unchanged.
#[derive(Debug, Clone, Copy, PartialEq, Eq, Structural)]
pub enum ContractError {
    /// The caller may not perform the requested operation.
    Unauthorized,
    /// Discover: an island already exists for this (owner, name) pair.
    Duplicate,
    /// Gather, mint or query: no island exists for the (owner, name) pair.
    NotFound,
    /// Gather: called again before the minimum interval has elapsed.
    GatherLimit,
    /// Query: the founder string failed identity validation.
    MalformedIdentity,
    /// Arithmetic would overflow, or logical time ran backwards; a defect
    /// condition, not a user error.
    Overflow,
}

} // verus!
