//! The transition engine: the three mutating operations and the two
//! read-only lookups, each a pure function of the persisted state, the
//! caller identity, the logical time and the request.

use vstd::prelude::*;

use crate::error::ContractError;
use crate::msg::{ExecuteMsg, InstantiateMsg, MigrateMsg, QueryMsg};
use crate::state::{amount_of, Island, IslandV, Islands, State, StateV};
use crate::{MIN_GATHER_INTERVAL, TOKEN_PER_RESOURCE};

verus! {

/// The mathematical value of the island ledger.
pub type LedgerV = Map<(Seq<char>, Seq<char>), IslandV>;

/// The denomination under which tokens of an island are minted: the owner,
/// a separator, and the island name. Distinct (owner, name) pairs whose
/// owner contains no separator give distinct denominations.
pub open spec fn denom_of(owner: Seq<char>, name: Seq<char>) -> Seq<char> {
    owner + seq!['/'] + name
}

/// Relies on `format!` with the `{}/{}` template: the result is the first
/// argument, one `/`, and the second argument.
#[verifier::external_body]
fn make_denom(owner: &String, name: &String) -> (r: String)
    ensures
        r@ == denom_of(owner@, name@),
{
    format!("{}/{}", owner, name)
}

/// What Discover does: if (owner, name) is taken, fail with `Duplicate`; if
/// the discovery counter is exhausted, fail with `Overflow`; otherwise
/// register a fresh island with no resources, the current time as its last
/// gather time and no supply, and count the discovery.
pub open spec fn spec_discover(
    m: LedgerV,
    st: StateV,
    owner: Seq<char>,
    name: Seq<char>,
    now: nat,
) -> (LedgerV, StateV, Result<IslandV, ContractError>) {
    if m.contains_key((owner, name)) {
        (m, st, Err(ContractError::Duplicate))
    } else if st.islands_discovered + 1 > u64::MAX {
        (m, st, Err(ContractError::Overflow))
    } else {
        let island = IslandV { name, resources: 0, last_gather_time: now, token_supply: 0 };
        (
            m.insert((owner, name), island),
            StateV {
                islands_discovered: (st.islands_discovered + 1) as nat,
                total_tokens_minted: st.total_tokens_minted,
            },
            Ok(island),
        )
    }
}

/// Register a new island for `sender` under `name` at logical time `now`.
/// On success the returned island is the one persisted.
pub fn try_discover_island(
    islands: &mut Islands,
    state: &mut State,
    sender: &String,
    now: u64,
    name: String,
) -> (r: Result<Island, ContractError>)
    requires
        old(islands).wf(),
        old(state).wf(),
    ensures
        final(islands).wf(),
        final(state).wf(),
        ({
            let (m2, st2, res) = spec_discover(
                old(islands)@,
                old(state)@,
                sender@,
                name@,
                now as nat,
            );
            &&& final(islands)@ == m2
            &&& final(state)@ == st2
            &&& match r {
                Ok(island) => res == Ok::<IslandV, ContractError>(island@),
                Err(e) => res == Err::<IslandV, ContractError>(e),
            }
        }),
{
    if islands.contains(sender, &name) {
        return Err(ContractError::Duplicate);
    }
    if state.islands_discovered == u64::MAX {
        return Err(ContractError::Overflow);
    }
    let island = Island { name, resources: 0, last_gather_time: now, token_supply: 0 };
    let registered = island.cloned();
    islands.save(sender.clone(), island);
    state.islands_discovered = state.islands_discovered + 1;
    Ok(registered)
}

/// What Gather does: fail with `NotFound` if the island does not exist and
/// with `Overflow` if logical time ran backwards; compute the seconds
/// elapsed since the last successful gather, fail with `GatherLimit` if the
/// minimum interval has not passed, and with `Overflow` if the resource
/// counter cannot take the accrual; otherwise accrue exactly the elapsed
/// seconds and remember `now` as the last gather time. A rejected call
/// changes nothing.
pub open spec fn spec_gather(m: LedgerV, owner: Seq<char>, name: Seq<char>, now: nat) -> (
    LedgerV,
    Result<nat, ContractError>,
) {
    if !m.contains_key((owner, name)) {
        (m, Err(ContractError::NotFound))
    } else {
        let island = m[(owner, name)];
        if now < island.last_gather_time {
            (m, Err(ContractError::Overflow))
        } else {
            let elapsed = now - island.last_gather_time;
            if elapsed < MIN_GATHER_INTERVAL {
                (m, Err(ContractError::GatherLimit))
            } else if island.resources + elapsed > u64::MAX {
                (m, Err(ContractError::Overflow))
            } else {
                (
                    m.insert(
                        (owner, name),
                        IslandV {
                            name: island.name,
                            resources: (island.resources + elapsed) as nat,
                            last_gather_time: now,
                            token_supply: island.token_supply,
                        },
                    ),
                    Ok(elapsed as nat),
                )
            }
        }
    }
}

/// Accrue resources on `sender`'s island `island_name` at logical time
/// `now`; on success the accrued amount is returned.
pub fn try_gather_resources(
    islands: &mut Islands,
    sender: &String,
    now: u64,
    island_name: &String,
) -> (r: Result<u64, ContractError>)
    requires
        old(islands).wf(),
    ensures
        final(islands).wf(),
        ({
            let (m2, res) = spec_gather(old(islands)@, sender@, island_name@, now as nat);
            &&& final(islands)@ == m2
            &&& match r {
                Ok(gathered) => res == Ok::<nat, ContractError>(gathered as nat),
                Err(e) => res == Err::<nat, ContractError>(e),
            }
        }),
{
    let found = match islands.lookup(sender, island_name) {
        None => {
            return Err(ContractError::NotFound);
        },
        Some(island) => island.cloned(),
    };
    if now < found.last_gather_time {
        return Err(ContractError::Overflow);
    }
    let elapsed = now - found.last_gather_time;
    if elapsed < MIN_GATHER_INTERVAL {
        return Err(ContractError::GatherLimit);
    }
    match found.resources.checked_add(elapsed) {
        None => Err(ContractError::Overflow),
        Some(new_resources) => {
            let updated = Island {
                name: found.name,
                resources: new_resources,
                last_gather_time: now,
                token_supply: found.token_supply,
            };
            islands.save(sender.clone(), updated);
            Ok(elapsed)
        },
    }
}

/// What Mint does: fail with `NotFound` if the island does not exist;
/// convert every accrued resource into tokens at the fixed rate; fail with
/// `Overflow` if the island's supply or the recorded denomination amount
/// cannot take the minted tokens, changing nothing; otherwise reset the
/// resources to zero, add the minted amount to the island's supply and
/// record it under the island's denomination, creating the entry if absent.
pub open spec fn spec_mint(m: LedgerV, st: StateV, owner: Seq<char>, name: Seq<char>) -> (
    LedgerV,
    StateV,
    Result<nat, ContractError>,
) {
    if !m.contains_key((owner, name)) {
        (m, st, Err(ContractError::NotFound))
    } else {
        let island = m[(owner, name)];
        let minted = island.resources * TOKEN_PER_RESOURCE;
        let recorded = amount_of(st.total_tokens_minted, denom_of(owner, name));
        if island.token_supply + minted > u128::MAX {
            (m, st, Err(ContractError::Overflow))
        } else if recorded + minted > u128::MAX {
            (m, st, Err(ContractError::Overflow))
        } else {
            (
                m.insert(
                    (owner, name),
                    IslandV {
                        name: island.name,
                        resources: 0,
                        last_gather_time: island.last_gather_time,
                        token_supply: (island.token_supply + minted) as nat,
                    },
                ),
                StateV {
                    islands_discovered: st.islands_discovered,
                    total_tokens_minted: (if minted == 0 {
                        st.total_tokens_minted
                    } else {
                        st.total_tokens_minted.insert(
                            denom_of(owner, name),
                            (recorded + minted) as nat,
                        )
                    }),
                },
                Ok(minted as nat),
            )
        }
    }
}

/// Mint tokens from the accrued resources of `sender`'s island
/// `island_name`; on success the minted amount is returned.
pub fn try_mint(
    islands: &mut Islands,
    state: &mut State,
    sender: &String,
    island_name: &String,
) -> (r: Result<u128, ContractError>)
    requires
        old(islands).wf(),
        old(state).wf(),
    ensures
        final(islands).wf(),
        final(state).wf(),
        ({
            let (m2, st2, res) = spec_mint(old(islands)@, old(state)@, sender@, island_name@);
            &&& final(islands)@ == m2
            &&& final(state)@ == st2
            &&& match r {
                Ok(amount) => res == Ok::<nat, ContractError>(amount as nat),
                Err(e) => res == Err::<nat, ContractError>(e),
            }
        }),
{
    let found = match islands.lookup(sender, island_name) {
        None => {
            return Err(ContractError::NotFound);
        },
        Some(island) => island.cloned(),
    };
    proof {
        assert((found.resources as int) * (TOKEN_PER_RESOURCE as int) <= (u64::MAX as int) * (
        TOKEN_PER_RESOURCE as int)) by (nonlinear_arith)
            requires
                found.resources <= u64::MAX,
        ;
        assert((u64::MAX as int) * (TOKEN_PER_RESOURCE as int) < u128::MAX as int);
    }
    let minted = (found.resources as u128) * (TOKEN_PER_RESOURCE as u128);
    let new_supply = match found.token_supply.checked_add(minted) {
        None => {
            return Err(ContractError::Overflow);
        },
        Some(s) => s,
    };
    let denom = make_denom(sender, &found.name);
    match state.add_minted(denom, minted) {
        Err(e) => Err(e),
        Ok(()) => {
            let updated = Island {
                name: found.name,
                resources: 0,
                last_gather_time: found.last_gather_time,
                token_supply: new_supply,
            };
            islands.save(sender.clone(), updated);
            Ok(minted)
        },
    }
}

/// Set up the engine: an empty ledger and fresh global counters.
pub fn instantiate(_msg: InstantiateMsg) -> (r: (Islands, State))
    ensures
        r.0@ == Map::<(Seq<char>, Seq<char>), IslandV>::empty(),
        r.0.wf(),
        r.1@.islands_discovered == 0,
        r.1@.total_tokens_minted == Map::<Seq<char>, nat>::empty(),
        r.1.wf(),
{
    (Islands::new(), State::new())
}

/// Migration hook kept for forward compatibility; transforms no data.
pub fn migrate(_msg: MigrateMsg) -> (r: Result<(), ContractError>)
    ensures
        r == Ok::<(), ContractError>(()),
{
    Ok(())
}

/// What a successful operation reports back to the caller.
#[derive(Debug)]
pub enum ExecuteOutcome {
    /// A new island was registered, with its owner and name.
    Discovered { owner: String, name: String },
    /// Resources were accrued; how many.
    Gathered { gathered: u64 },
    /// Tokens were minted; how many.
    Minted { amount: u128 },
}

/// Route one request to its operation: `sender` is the caller identity and
/// `now` the logical time, both supplied by the host.
pub fn execute(
    islands: &mut Islands,
    state: &mut State,
    sender: String,
    now: u64,
    msg: ExecuteMsg,
) -> (r: Result<ExecuteOutcome, ContractError>)
    requires
        old(islands).wf(),
        old(state).wf(),
    ensures
        final(islands).wf(),
        final(state).wf(),
        match msg {
            ExecuteMsg::DiscoverIsland { name } => ({
                let (m2, st2, res) = spec_discover(
                    old(islands)@,
                    old(state)@,
                    sender@,
                    name@,
                    now as nat,
                );
                &&& final(islands)@ == m2
                &&& final(state)@ == st2
                &&& match r {
                    Ok(out) => res is Ok && out == (ExecuteOutcome::Discovered {
                        owner: sender,
                        name,
                    }),
                    Err(e) => res == Err::<IslandV, ContractError>(e),
                }
            }),
            ExecuteMsg::GatherResources { island_name } => ({
                let (m2, res) = spec_gather(old(islands)@, sender@, island_name@, now as nat);
                &&& final(islands)@ == m2
                &&& *final(state) == *old(state)
                &&& match r {
                    Ok(out) => out matches ExecuteOutcome::Gathered { gathered } && res
                        == Ok::<nat, ContractError>(gathered as nat),
                    Err(e) => res == Err::<nat, ContractError>(e),
                }
            }),
            ExecuteMsg::Mint { island_name } => ({
                let (m2, st2, res) = spec_mint(old(islands)@, old(state)@, sender@, island_name@);
                &&& final(islands)@ == m2
                &&& final(state)@ == st2
                &&& match r {
                    Ok(out) => out matches ExecuteOutcome::Minted { amount } && res
                        == Ok::<nat, ContractError>(amount as nat),
                    Err(e) => res == Err::<nat, ContractError>(e),
                }
            }),
        },
{
    match msg {
        ExecuteMsg::DiscoverIsland { name } => {
            let island_name = name.clone();
            match try_discover_island(islands, state, &sender, now, name) {
                Ok(_island) => Ok(ExecuteOutcome::Discovered { owner: sender, name: island_name }),
                Err(e) => Err(e),
            }
        },
        ExecuteMsg::GatherResources { island_name } => {
            match try_gather_resources(islands, &sender, now, &island_name) {
                Ok(gathered) => Ok(ExecuteOutcome::Gathered { gathered }),
                Err(e) => Err(e),
            }
        },
        ExecuteMsg::Mint { island_name } => {
            match try_mint(islands, state, &sender, &island_name) {
                Ok(amount) => Ok(ExecuteOutcome::Minted { amount }),
                Err(e) => Err(e),
            }
        },
    }
}

/// Look up the island discovered by `founder` under `name`. The founder
/// string arrives unvalidated; the host's verdict on it is handed in as
/// `founder`: `None` where identity validation failed. No state is touched.
pub fn query_island(islands: &Islands, founder: &Option<String>, name: &String) -> (r: Result<
    Island,
    ContractError,
>)
    requires
        islands.wf(),
    ensures
        match *founder {
            None => r == Err::<Island, ContractError>(ContractError::MalformedIdentity),
            Some(f) => match r {
                Ok(island) => islands@.contains_key((f@, name@)) && island@ == islands@[(
                    f@,
                    name@,
                )],
                Err(e) => e == ContractError::NotFound && !islands@.contains_key((f@, name@)),
            },
        },
{
    match founder {
        None => Err(ContractError::MalformedIdentity),
        Some(f) => match islands.lookup(f, name) {
            None => Err(ContractError::NotFound),
            Some(island) => Ok(island.cloned()),
        },
    }
}

/// A read-only copy of the global counters. No state is touched.
pub fn query_state(state: &State) -> (r: State)
    ensures
        r.islands_discovered == state.islands_discovered,
        r.total_tokens_minted@ == state.total_tokens_minted@,
        r@ == state@,
{
    state.cloned()
}

/// What a lookup answers with.
#[derive(Debug)]
pub enum QueryAnswer {
    /// The island a `GetIsland` lookup found.
    Island(Island),
    /// The counters a `GetState` lookup returned.
    State(State),
}

/// Route one read-only lookup. A `GetIsland` founder string arrives
/// unvalidated; `founder_valid` is the host's verdict on it.
pub fn query(islands: &Islands, state: &State, msg: QueryMsg, founder_valid: bool) -> (r: Result<
    QueryAnswer,
    ContractError,
>)
    requires
        islands.wf(),
    ensures
        match msg {
            QueryMsg::GetIsland { founder, name } => match r {
                Ok(answer) => founder_valid && (answer matches QueryAnswer::Island(island)
                    && islands@.contains_key((founder@, name@)) && island@ == islands@[(
                    founder@,
                    name@,
                )]),
                Err(e) => if !founder_valid {
                    e == ContractError::MalformedIdentity
                } else {
                    e == ContractError::NotFound && !islands@.contains_key((founder@, name@))
                },
            },
            QueryMsg::GetState {} => r matches Ok(answer) && (answer matches QueryAnswer::State(s)
                && s@ == state@ && s.total_tokens_minted@ == state.total_tokens_minted@),
        },
{
    match msg {
        QueryMsg::GetIsland { founder, name } => {
            let validated = if founder_valid {
                Some(founder)
            } else {
                None
            };
            match query_island(islands, &validated, &name) {
                Ok(island) => Ok(QueryAnswer::Island(island)),
                Err(e) => Err(e),
            }
        },
        QueryMsg::GetState {  } => Ok(QueryAnswer::State(query_state(state))),
    }
}

} // verus!
