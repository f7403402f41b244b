//! The request shapes the engine consumes. How they arrive on the wire is
//! the hosting runtime's concern, not the engine's.

use vstd::prelude::*;

verus! {

/// Initialization request; the engine starts with fresh global counters.
#[derive(Debug)]
pub struct InstantiateMsg {}

/// The mutating operations. Each carries the data the operation needs
/// beyond the caller identity and the logical time.
#[derive(Debug)]
pub enum ExecuteMsg {
    /// Register a new island under the caller's namespace.
    DiscoverIsland { name: String },
    /// Accrue resources on one of the caller's islands.
    GatherResources { island_name: String },
    /// Convert an island's accrued resources into tokens.
    Mint { island_name: String },
}

/// The read-only lookups.
#[derive(Debug)]
pub enum QueryMsg {
    /// The island discovered by `founder` under `name`.
    GetIsland { founder: String, name: String },
    /// The global counters.
    GetState {},
}

/// Migration request: a forward-compatibility hook that transforms no data.
#[derive(Debug)]
pub struct MigrateMsg {}

} // verus!
