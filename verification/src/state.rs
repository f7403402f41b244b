//! The persisted data model: islands, the ledger that holds them keyed by
//! (owner, name), and the global counters.

use vstd::prelude::*;

use crate::assoc::{assoc_map, distinct_keys, lemma_assoc_map_contains, lemma_assoc_map_index,
    lemma_assoc_map_len, lemma_assoc_map_push, lemma_assoc_map_update};
use crate::error::ContractError;

verus! {

/// One discovered island. At most one exists per (owner, name) pair for the
/// lifetime of the system.
#[derive(Debug)]
pub struct Island {
    /// Identifier, unique only within its owner's namespace.
    pub name: String,
    /// Resources accrued by gathering; reset to zero by minting.
    pub resources: u64,
    /// Logical time, in seconds, of the last successful gather.
    pub last_gather_time: u64,
    /// Cumulative tokens ever minted for this island; never decreases.
    pub token_supply: u128,
}

/// The mathematical value of an [`Island`].
pub struct IslandV {
    pub name: Seq<char>,
    pub resources: nat,
    pub last_gather_time: nat,
    pub token_supply: nat,
}

impl View for Island {
    type V = IslandV;

    open spec fn view(&self) -> IslandV {
        IslandV {
            name: self.name@,
            resources: self.resources as nat,
            last_gather_time: self.last_gather_time as nat,
            token_supply: self.token_supply as nat,
        }
    }
}

impl Island {
    /// An exact copy of the island.
    pub fn cloned(&self) -> (r: Island)
        ensures
            r == *self,
    {
        Island {
            name: self.name.clone(),
            resources: self.resources,
            last_gather_time: self.last_gather_time,
            token_supply: self.token_supply,
        }
    }
}

/// One minted-denomination entry of the global counters: the cumulative
/// amount ever minted under this denomination.
#[derive(Debug)]
pub struct Coin {
    pub denom: String,
    pub amount: u128,
}

impl Coin {
    /// An exact copy of the coin.
    pub fn cloned(&self) -> (r: Coin)
        ensures
            r == *self,
    {
        Coin { denom: self.denom.clone(), amount: self.amount }
    }
}

/// The key a coin entry binds: its denomination.
pub open spec fn coin_key() -> spec_fn(Coin) -> Seq<char> {
    |c: Coin| c.denom@
}

/// The value a coin entry binds: its amount.
pub open spec fn coin_val() -> spec_fn(Coin) -> nat {
    |c: Coin| c.amount as nat
}

/// The minted map that a coin list denotes: each denomination bound to its
/// amount.
pub open spec fn coins_map(s: Seq<Coin>) -> Map<Seq<char>, nat> {
    assoc_map(s, coin_key(), coin_val())
}

/// The amount a minted map records for a denomination; zero if absent.
pub open spec fn amount_of(m: Map<Seq<char>, nat>, denom: Seq<char>) -> nat {
    if m.contains_key(denom) {
        m[denom]
    } else {
        0
    }
}

/// Every amount a coin list's map records fits the machine word it was
/// stored in.
proof fn lemma_coins_map_bound(s: Seq<Coin>, d: Seq<char>)
    ensures
        amount_of(coins_map(s), d) <= u128::MAX,
    decreases s.len(),
{
    if s.len() > 0 {
        lemma_coins_map_bound(s.drop_last(), d);
    }
}

/// The mathematical value of the global counters.
pub struct StateV {
    /// How many islands were ever discovered, over all owners.
    pub islands_discovered: nat,
    /// Cumulative minted amounts, one binding per denomination.
    pub total_tokens_minted: Map<Seq<char>, nat>,
}

/// The global counters: the discovery count and the minted amounts broken
/// down per denomination.
#[derive(Debug)]
pub struct State {
    /// Incremented exactly once per successful discover, over all owners.
    pub islands_discovered: u64,
    /// One entry per denomination; no duplicates, no zero amounts.
    pub total_tokens_minted: Vec<Coin>,
}

impl State {
    /// Well-formed: denominations are pairwise distinct and no stored amount
    /// is zero.
    pub open spec fn wf(&self) -> bool {
        &&& distinct_keys(self.total_tokens_minted@, coin_key())
        &&& forall|i: int|
            0 <= i < self.total_tokens_minted@.len() ==> (
            #[trigger] self.total_tokens_minted@[i]).amount > 0
    }

    /// Fresh global counters: nothing discovered, nothing minted.
    pub fn new() -> (r: State)
        ensures
            r@.islands_discovered == 0,
            r@.total_tokens_minted == Map::<Seq<char>, nat>::empty(),
            r.wf(),
    {
        State { islands_discovered: 0, total_tokens_minted: Vec::new() }
    }

    /// Add `amount` to the denomination's entry, creating the entry if it is
    /// absent; adding zero changes nothing. Fails on arithmetic overflow of
    /// the entry, in which case nothing changes.
    pub fn add_minted(&mut self, denom: String, amount: u128) -> (r: Result<(), ContractError>)
        requires
            old(self).wf(),
        ensures
            final(self).wf(),
            final(self).islands_discovered == old(self).islands_discovered,
            match r {
                Ok(()) => {
                    &&& amount_of(old(self)@.total_tokens_minted, denom@) + amount <= u128::MAX
                    &&& final(self)@.total_tokens_minted == (if amount == 0 {
                        old(self)@.total_tokens_minted
                    } else {
                        old(self)@.total_tokens_minted.insert(
                            denom@,
                            (amount_of(old(self)@.total_tokens_minted, denom@) + amount) as nat,
                        )
                    })
                },
                Err(e) => {
                    &&& e == ContractError::Overflow
                    &&& amount_of(old(self)@.total_tokens_minted, denom@) + amount > u128::MAX
                    &&& *final(self) == *old(self)
                },
            },
    {
        if amount == 0 {
            proof {
                lemma_coins_map_bound(self.total_tokens_minted@, denom@);
            }
            return Ok(());
        }
        let n = self.total_tokens_minted.len();
        let mut i: usize = 0;
        while i < n
            invariant
                *self == *old(self),
                self.wf(),
                n == self.total_tokens_minted.len(),
                0 <= i <= n,
                forall|j: int|
                    0 <= j < i ==> (#[trigger] self.total_tokens_minted@[j]).denom@ != denom@,
            decreases n - i,
        {
            if self.total_tokens_minted[i].denom == denom {
                proof {
                    lemma_assoc_map_index(
                        self.total_tokens_minted@,
                        coin_key(),
                        coin_val(),
                        i as int,
                    );
                }
                let cur = self.total_tokens_minted[i].amount;
                match cur.checked_add(amount) {
                    None => {
                        return Err(ContractError::Overflow);
                    },
                    Some(new_amount) => {
                        proof {
                            lemma_assoc_map_update(
                                self.total_tokens_minted@,
                                coin_key(),
                                coin_val(),
                                i as int,
                                Coin { denom, amount: new_amount },
                            );
                        }
                        self.total_tokens_minted.set(i, Coin { denom, amount: new_amount });
                        return Ok(());
                    },
                }
            }
            i += 1;
        }
        proof {
            lemma_assoc_map_contains(self.total_tokens_minted@, coin_key(), coin_val(), denom@);
            lemma_assoc_map_push(
                self.total_tokens_minted@,
                coin_key(),
                coin_val(),
                Coin { denom, amount },
            );
        }
        self.total_tokens_minted.push(Coin { denom, amount });
        Ok(())
    }

    /// An exact copy of the counters.
    pub fn cloned(&self) -> (r: State)
        ensures
            r.islands_discovered == self.islands_discovered,
            r.total_tokens_minted@ == self.total_tokens_minted@,
            r@ == self@,
    {
        let n = self.total_tokens_minted.len();
        let mut coins: Vec<Coin> = Vec::new();
        let mut i: usize = 0;
        while i < n
            invariant
                n == self.total_tokens_minted.len(),
                0 <= i <= n,
                coins@.len() == i,
                forall|j: int| 0 <= j < i ==> coins@[j] == self.total_tokens_minted@[j],
            decreases n - i,
        {
            coins.push(self.total_tokens_minted[i].cloned());
            i += 1;
        }
        assert(coins@ =~= self.total_tokens_minted@);
        State { islands_discovered: self.islands_discovered, total_tokens_minted: coins }
    }
}

impl View for State {
    type V = StateV;

    open spec fn view(&self) -> StateV {
        StateV {
            islands_discovered: self.islands_discovered as nat,
            total_tokens_minted: coins_map(self.total_tokens_minted@),
        }
    }
}

/// One ledger entry: an island and the owner that discovered it.
#[derive(Debug)]
pub struct IslandEntry {
    pub owner: String,
    pub island: Island,
}

/// The key a ledger entry binds: (owner, island name).
pub open spec fn island_key() -> spec_fn(IslandEntry) -> (Seq<char>, Seq<char>) {
    |e: IslandEntry| (e.owner@, e.island.name@)
}

/// The value a ledger entry binds: the island itself.
pub open spec fn island_val() -> spec_fn(IslandEntry) -> IslandV {
    |e: IslandEntry| e.island@
}

/// The ledger of all discovered islands, keyed by (owner, name). It denotes
/// a map from those keys to island values.
#[derive(Debug)]
pub struct Islands {
    entries: Vec<IslandEntry>,
}

impl View for Islands {
    type V = Map<(Seq<char>, Seq<char>), IslandV>;

    closed spec fn view(&self) -> Map<(Seq<char>, Seq<char>), IslandV> {
        assoc_map(self.entries@, island_key(), island_val())
    }
}

impl Islands {
    /// Well-formed: at most one entry per (owner, name) pair.
    pub closed spec fn wf(&self) -> bool {
        distinct_keys(self.entries@, island_key())
    }

    /// The empty ledger.
    pub fn new() -> (r: Islands)
        ensures
            r@ == Map::<(Seq<char>, Seq<char>), IslandV>::empty(),
            r.wf(),
    {
        Islands { entries: Vec::new() }
    }

    /// The position of the entry for (owner, name), if any.
    fn position(&self, owner: &String, name: &String) -> (r: Option<usize>)
        ensures
            match r {
                Some(i) => i < self.entries@.len() && island_key()(self.entries@[i as int]) == (
                    owner@,
                    name@,
                ),
                None => forall|j: int|
                    0 <= j < self.entries@.len() ==> island_key()(#[trigger] self.entries@[j]) != (
                        owner@,
                        name@,
                    ),
            },
    {
        let n = self.entries.len();
        let mut i: usize = 0;
        while i < n
            invariant
                n == self.entries@.len(),
                0 <= i <= n,
                forall|j: int|
                    0 <= j < i ==> island_key()(#[trigger] self.entries@[j]) != (owner@, name@),
            decreases n - i,
        {
            if self.entries[i].owner == *owner && self.entries[i].island.name == *name {
                return Some(i);
            }
            i += 1;
        }
        None
    }

    /// Whether an island exists for (owner, name).
    pub fn contains(&self, owner: &String, name: &String) -> (r: bool)
        ensures
            r == self@.contains_key((owner@, name@)),
    {
        proof {
            lemma_assoc_map_contains(self.entries@, island_key(), island_val(), (owner@, name@));
        }
        self.position(owner, name).is_some()
    }

    /// The island for (owner, name), if any.
    pub fn lookup(&self, owner: &String, name: &String) -> (r: Option<&Island>)
        requires
            self.wf(),
        ensures
            match r {
                Some(island) => self@.contains_key((owner@, name@)) && island@ == self@[(
                    owner@,
                    name@,
                )] && island.name@ == name@,
                None => !self@.contains_key((owner@, name@)),
            },
    {
        proof {
            lemma_assoc_map_contains(self.entries@, island_key(), island_val(), (owner@, name@));
        }
        match self.position(owner, name) {
            None => None,
            Some(i) => {
                proof {
                    lemma_assoc_map_index(self.entries@, island_key(), island_val(), i as int);
                }
                Some(&self.entries[i].island)
            },
        }
    }

    /// Persist an island under (owner, island.name): replace the existing
    /// entry, or append a new one.
    pub fn save(&mut self, owner: String, island: Island)
        requires
            old(self).wf(),
        ensures
            final(self).wf(),
            final(self)@ == old(self)@.insert((owner@, island.name@), island@),
    {
        match self.position(&owner, &island.name) {
            Some(i) => {
                proof {
                    lemma_assoc_map_update(
                        self.entries@,
                        island_key(),
                        island_val(),
                        i as int,
                        IslandEntry { owner, island },
                    );
                }
                self.entries.set(i, IslandEntry { owner, island });
            },
            None => {
                proof {
                    lemma_assoc_map_push(
                        self.entries@,
                        island_key(),
                        island_val(),
                        IslandEntry { owner, island },
                    );
                }
                self.entries.push(IslandEntry { owner, island });
            },
        }
    }

    /// How many islands the ledger holds.
    pub fn count(&self) -> (r: usize)
        requires
            self.wf(),
        ensures
            r == self@.dom().len(),
            self@.dom().finite(),
    {
        proof {
            lemma_assoc_map_len(self.entries@, island_key(), island_val());
        }
        self.entries.len()
    }
}

} // verus!
