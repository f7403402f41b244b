use columbus::contract::{
    execute, instantiate, migrate, query, query_island, query_state, try_discover_island,
    try_gather_resources, try_mint, ExecuteOutcome, QueryAnswer,
};
use columbus::error::ContractError;
use columbus::msg::{ExecuteMsg, InstantiateMsg, MigrateMsg, QueryMsg};
use columbus::state::{Islands, State};

fn fresh() -> (Islands, State) {
    instantiate(InstantiateMsg {})
}

fn owner(name: &str) -> String {
    name.to_string()
}

#[test]
fn discover_registers_a_fresh_island() {
    let (mut islands, mut state) = fresh();
    let alice = owner("alice");
    let island = try_discover_island(&mut islands, &mut state, &alice, 1000, "reef".to_string())
        .expect("first discover succeeds");
    assert_eq!(island.name, "reef");
    assert_eq!(island.resources, 0);
    assert_eq!(island.last_gather_time, 1000);
    assert_eq!(island.token_supply, 0);
    assert_eq!(state.islands_discovered, 1);
}

#[test]
fn discover_twice_fails_and_changes_nothing() {
    let (mut islands, mut state) = fresh();
    let alice = owner("alice");
    try_discover_island(&mut islands, &mut state, &alice, 1000, "reef".to_string()).unwrap();
    let second = try_discover_island(&mut islands, &mut state, &alice, 2000, "reef".to_string());
    assert_eq!(second.unwrap_err(), ContractError::Duplicate);
    // the island is exactly as the first call left it
    let kept = query_island(&islands, &Some(alice), &"reef".to_string()).unwrap();
    assert_eq!(kept.name, "reef");
    assert_eq!(kept.resources, 0);
    assert_eq!(kept.last_gather_time, 1000);
    assert_eq!(kept.token_supply, 0);
    assert_eq!(state.islands_discovered, 1);
}

#[test]
fn same_name_under_two_owners_is_no_duplicate() {
    let (mut islands, mut state) = fresh();
    try_discover_island(&mut islands, &mut state, &owner("alice"), 10, "reef".to_string()).unwrap();
    try_discover_island(&mut islands, &mut state, &owner("bob"), 20, "reef".to_string()).unwrap();
    assert_eq!(state.islands_discovered, 2);
}

#[test]
fn gather_before_any_discover_is_not_found() {
    let (mut islands, _state) = fresh();
    let r = try_gather_resources(&mut islands, &owner("bob"), 1000, &"atoll".to_string());
    assert_eq!(r.unwrap_err(), ContractError::NotFound);
}

#[test]
fn gather_too_soon_is_rejected_without_any_change() {
    let (mut islands, mut state) = fresh();
    let alice = owner("alice");
    try_discover_island(&mut islands, &mut state, &alice, 1000, "reef".to_string()).unwrap();
    let r = try_gather_resources(&mut islands, &alice, 1030, &"reef".to_string());
    assert_eq!(r.unwrap_err(), ContractError::GatherLimit);
    let kept = query_island(&islands, &Some(alice), &"reef".to_string()).unwrap();
    assert_eq!(kept.resources, 0);
    assert_eq!(kept.last_gather_time, 1000);
}

#[test]
fn gather_after_the_interval_accrues_the_elapsed_time() {
    let (mut islands, mut state) = fresh();
    let alice = owner("alice");
    try_discover_island(&mut islands, &mut state, &alice, 1000, "reef".to_string()).unwrap();
    let gathered = try_gather_resources(&mut islands, &alice, 1061, &"reef".to_string()).unwrap();
    assert_eq!(gathered, 61);
    let kept = query_island(&islands, &Some(alice), &"reef".to_string()).unwrap();
    assert_eq!(kept.resources, 61);
    assert_eq!(kept.last_gather_time, 1061);
}

#[test]
fn gather_at_exactly_the_interval_succeeds() {
    let (mut islands, mut state) = fresh();
    let alice = owner("alice");
    try_discover_island(&mut islands, &mut state, &alice, 500, "reef".to_string()).unwrap();
    let gathered = try_gather_resources(&mut islands, &alice, 560, &"reef".to_string()).unwrap();
    assert_eq!(gathered, 60);
}

#[test]
fn gather_with_regressed_time_is_an_overflow_error() {
    let (mut islands, mut state) = fresh();
    let alice = owner("alice");
    try_discover_island(&mut islands, &mut state, &alice, 1000, "reef".to_string()).unwrap();
    let r = try_gather_resources(&mut islands, &alice, 900, &"reef".to_string());
    assert_eq!(r.unwrap_err(), ContractError::Overflow);
    let kept = query_island(&islands, &Some(alice), &"reef".to_string()).unwrap();
    assert_eq!(kept.resources, 0);
    assert_eq!(kept.last_gather_time, 1000);
}

#[test]
fn mint_converts_resources_and_resets_them() {
    let (mut islands, mut state) = fresh();
    let alice = owner("alice");
    try_discover_island(&mut islands, &mut state, &alice, 1000, "reef".to_string()).unwrap();
    try_gather_resources(&mut islands, &alice, 1061, &"reef".to_string()).unwrap();
    let amount = try_mint(&mut islands, &mut state, &alice, &"reef".to_string()).unwrap();
    assert_eq!(amount, 6100);
    let kept = query_island(&islands, &Some(alice.clone()), &"reef".to_string()).unwrap();
    assert_eq!(kept.resources, 0);
    assert_eq!(kept.token_supply, 6100);
    // the global counters record the same amount under alice's denomination
    let counters = query_state(&state);
    assert_eq!(counters.total_tokens_minted.len(), 1);
    assert_eq!(counters.total_tokens_minted[0].denom, "alice/reef");
    assert_eq!(counters.total_tokens_minted[0].amount, 6100);
}

#[test]
fn mint_without_an_island_is_not_found() {
    let (mut islands, mut state) = fresh();
    let r = try_mint(&mut islands, &mut state, &owner("bob"), &"atoll".to_string());
    assert_eq!(r.unwrap_err(), ContractError::NotFound);
}

#[test]
fn mint_twice_mints_zero_the_second_time() {
    let (mut islands, mut state) = fresh();
    let alice = owner("alice");
    try_discover_island(&mut islands, &mut state, &alice, 0, "reef".to_string()).unwrap();
    try_gather_resources(&mut islands, &alice, 100, &"reef".to_string()).unwrap();
    let first = try_mint(&mut islands, &mut state, &alice, &"reef".to_string()).unwrap();
    assert_eq!(first, 10000);
    let second = try_mint(&mut islands, &mut state, &alice, &"reef".to_string()).unwrap();
    assert_eq!(second, 0);
    let kept = query_island(&islands, &Some(alice), &"reef".to_string()).unwrap();
    assert_eq!(kept.token_supply, 10000);
    let counters = query_state(&state);
    assert_eq!(counters.total_tokens_minted.len(), 1);
    assert_eq!(counters.total_tokens_minted[0].amount, 10000);
}

#[test]
fn minting_with_no_resources_records_no_denomination() {
    let (mut islands, mut state) = fresh();
    let alice = owner("alice");
    try_discover_island(&mut islands, &mut state, &alice, 0, "reef".to_string()).unwrap();
    let amount = try_mint(&mut islands, &mut state, &alice, &"reef".to_string()).unwrap();
    assert_eq!(amount, 0);
    assert!(query_state(&state).total_tokens_minted.is_empty());
}

#[test]
fn conservation_across_gathers_and_mints() {
    let (mut islands, mut state) = fresh();
    let alice = owner("alice");
    try_discover_island(&mut islands, &mut state, &alice, 0, "reef".to_string()).unwrap();
    let mut returned_total: u128 = 0;
    let mut now: u64 = 0;
    for _round in 0..5 {
        now += 73;
        try_gather_resources(&mut islands, &alice, now, &"reef".to_string()).unwrap();
        returned_total += try_mint(&mut islands, &mut state, &alice, &"reef".to_string()).unwrap();
    }
    let kept = query_island(&islands, &Some(alice), &"reef".to_string()).unwrap();
    assert_eq!(kept.token_supply, returned_total);
    assert_eq!(returned_total, 5 * 73 * 100);
    let counters = query_state(&state);
    assert_eq!(counters.total_tokens_minted.len(), 1);
    assert_eq!(counters.total_tokens_minted[0].denom, "alice/reef");
    assert_eq!(counters.total_tokens_minted[0].amount, returned_total);
}

#[test]
fn two_owners_mint_under_distinct_denominations() {
    let (mut islands, mut state) = fresh();
    let alice = owner("alice");
    let bob = owner("bob");
    try_discover_island(&mut islands, &mut state, &alice, 0, "reef".to_string()).unwrap();
    try_discover_island(&mut islands, &mut state, &bob, 0, "reef".to_string()).unwrap();
    try_gather_resources(&mut islands, &alice, 80, &"reef".to_string()).unwrap();
    try_gather_resources(&mut islands, &bob, 90, &"reef".to_string()).unwrap();
    try_mint(&mut islands, &mut state, &alice, &"reef".to_string()).unwrap();
    try_mint(&mut islands, &mut state, &bob, &"reef".to_string()).unwrap();
    let counters = query_state(&state);
    assert_eq!(counters.total_tokens_minted.len(), 2);
    let denoms: Vec<&str> = counters.total_tokens_minted.iter().map(|c| c.denom.as_str()).collect();
    assert!(denoms.contains(&"alice/reef"));
    assert!(denoms.contains(&"bob/reef"));
    for coin in &counters.total_tokens_minted {
        if coin.denom == "alice/reef" {
            assert_eq!(coin.amount, 8000);
        } else {
            assert_eq!(coin.amount, 9000);
        }
    }
}

#[test]
fn discovery_counter_counts_only_successful_discovers() {
    let (mut islands, mut state) = fresh();
    let alice = owner("alice");
    let bob = owner("bob");
    try_discover_island(&mut islands, &mut state, &alice, 0, "reef".to_string()).unwrap();
    let _ = try_discover_island(&mut islands, &mut state, &alice, 0, "reef".to_string());
    try_discover_island(&mut islands, &mut state, &bob, 0, "atoll".to_string()).unwrap();
    let _ = try_gather_resources(&mut islands, &alice, 100, &"reef".to_string());
    let _ = try_mint(&mut islands, &mut state, &alice, &"reef".to_string());
    assert_eq!(query_state(&state).islands_discovered, 2);
    assert_eq!(islands.count(), 2);
}

#[test]
fn scenario_discover_gather_gather_mint() {
    let (mut islands, mut state) = fresh();
    let alice = owner("alice");
    try_discover_island(&mut islands, &mut state, &alice, 0, "reef".to_string()).unwrap();
    let too_soon = try_gather_resources(&mut islands, &alice, 30, &"reef".to_string());
    assert_eq!(too_soon.unwrap_err(), ContractError::GatherLimit);
    let gathered = try_gather_resources(&mut islands, &alice, 61, &"reef".to_string()).unwrap();
    assert_eq!(gathered, 61);
    let amount = try_mint(&mut islands, &mut state, &alice, &"reef".to_string()).unwrap();
    assert_eq!(amount, 6100);
    let kept = query_island(&islands, &Some(alice), &"reef".to_string()).unwrap();
    assert_eq!(kept.resources, 0);
}

#[test]
fn query_island_rejects_an_invalid_founder() {
    let (mut islands, mut state) = fresh();
    let alice = owner("alice");
    try_discover_island(&mut islands, &mut state, &alice, 0, "reef".to_string()).unwrap();
    let r = query_island(&islands, &None, &"reef".to_string());
    assert_eq!(r.unwrap_err(), ContractError::MalformedIdentity);
}

#[test]
fn query_island_of_an_unknown_pair_is_not_found() {
    let (islands, _state) = fresh();
    let r = query_island(&islands, &Some(owner("alice")), &"reef".to_string());
    assert_eq!(r.unwrap_err(), ContractError::NotFound);
}

#[test]
fn execute_routes_each_message_to_its_operation() {
    let (mut islands, mut state) = fresh();
    let out = execute(
        &mut islands,
        &mut state,
        owner("alice"),
        0,
        ExecuteMsg::DiscoverIsland { name: "reef".to_string() },
    )
    .unwrap();
    match out {
        ExecuteOutcome::Discovered { owner, name } => {
            assert_eq!(owner, "alice");
            assert_eq!(name, "reef");
        },
        _ => panic!("expected a discovery outcome"),
    }
    let out = execute(
        &mut islands,
        &mut state,
        owner("alice"),
        75,
        ExecuteMsg::GatherResources { island_name: "reef".to_string() },
    )
    .unwrap();
    match out {
        ExecuteOutcome::Gathered { gathered } => assert_eq!(gathered, 75),
        _ => panic!("expected a gather outcome"),
    }
    let out = execute(
        &mut islands,
        &mut state,
        owner("alice"),
        75,
        ExecuteMsg::Mint { island_name: "reef".to_string() },
    )
    .unwrap();
    match out {
        ExecuteOutcome::Minted { amount } => assert_eq!(amount, 7500),
        _ => panic!("expected a mint outcome"),
    }
    let err = execute(
        &mut islands,
        &mut state,
        owner("bob"),
        80,
        ExecuteMsg::Mint { island_name: "reef".to_string() },
    );
    assert_eq!(err.unwrap_err(), ContractError::NotFound);
}

#[test]
fn migrate_transforms_nothing() {
    assert!(migrate(MigrateMsg {}).is_ok());
}

#[test]
fn instantiate_starts_empty() {
    let (islands, state) = fresh();
    assert_eq!(state.islands_discovered, 0);
    assert!(state.total_tokens_minted.is_empty());
    assert!(query_island(&islands, &Some(owner("alice")), &"reef".to_string()).is_err());
}

#[test]
fn query_dispatch_answers_island_and_state() {
    let (mut islands, mut state) = fresh();
    let alice = owner("alice");
    try_discover_island(&mut islands, &mut state, &alice, 7, "reef".to_string()).unwrap();
    let got = query(
        &islands,
        &state,
        QueryMsg::GetIsland { founder: owner("alice"), name: "reef".to_string() },
        true,
    )
    .unwrap();
    match got {
        QueryAnswer::Island(island) => {
            assert_eq!(island.name, "reef");
            assert_eq!(island.last_gather_time, 7);
        },
        _ => panic!("expected an island answer"),
    }
    let rejected = query(
        &islands,
        &state,
        QueryMsg::GetIsland { founder: owner("not an address"), name: "reef".to_string() },
        false,
    );
    assert_eq!(rejected.unwrap_err(), ContractError::MalformedIdentity);
    let counters = query(&islands, &state, QueryMsg::GetState {}, true).unwrap();
    match counters {
        QueryAnswer::State(s) => assert_eq!(s.islands_discovered, 1),
        _ => panic!("expected a state answer"),
    }
}
