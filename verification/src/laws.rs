//! The laws of the engine: properties that hold across sequences of
//! operations, stated and proved over the same spec-level transitions that
//! the executable operations are specified by.

use vstd::prelude::*;

use crate::contract::{denom_of, spec_discover, spec_gather, spec_mint, LedgerV};
use crate::error::ContractError;
use crate::state::{amount_of, IslandV, StateV};

verus! {

/// A character sequence that contains no denomination separator.
pub open spec fn slash_free(s: Seq<char>) -> bool {
    forall|i: int| 0 <= i < s.len() ==> s[i] != '/'
}

/// Every owner in the ledger is free of the denomination separator.
pub open spec fn owners_slash_free(m: LedgerV) -> bool {
    forall|k: (Seq<char>, Seq<char>)| #[trigger] m.contains_key(k) ==> slash_free(k.0)
}

/// On owners free of the separator, the denomination derivation is
/// injective: distinct (owner, name) pairs give distinct denominations.
pub proof fn lemma_denom_injective(o1: Seq<char>, n1: Seq<char>, o2: Seq<char>, n2: Seq<char>)
    requires
        slash_free(o1),
        slash_free(o2),
        denom_of(o1, n1) == denom_of(o2, n2),
    ensures
        o1 == o2,
        n1 == n2,
{
    let d = denom_of(o1, n1);
    let sep = seq!['/'];
    assert(sep.len() == 1 && sep[0] == '/');
    assert(d.len() == o1.len() + 1 + n1.len());
    assert(d.len() == o2.len() + 1 + n2.len());
    assert(d[o1.len() as int] == '/');
    assert(denom_of(o2, n2)[o2.len() as int] == '/');
    assert(forall|i: int| 0 <= i < o1.len() ==> d[i] == o1[i]);
    assert(forall|i: int| 0 <= i < o2.len() ==> denom_of(o2, n2)[i] == o2[i]);
    if o1.len() < o2.len() {
        assert(d[o1.len() as int] == o2[o1.len() as int]);
        assert(false);
    }
    if o2.len() < o1.len() {
        assert(d[o2.len() as int] == o1[o2.len() as int]);
        assert(false);
    }
    assert(o1 =~= o2);
    assert(forall|j: int| 0 <= j < n1.len() ==> d[o1.len() + 1 + j] == n1[j]);
    assert(forall|j: int| 0 <= j < n2.len() ==> denom_of(o2, n2)[o2.len() + 1 + j] == n2[j]);
    assert(n1 =~= n2);
}

/// Conservation: every island's cumulative token supply is exactly the
/// amount the global counters record under its denomination, and every
/// recorded denomination is some island's.
pub open spec fn conserved(m: LedgerV, st: StateV) -> bool {
    &&& forall|k: (Seq<char>, Seq<char>)| #[trigger] m.contains_key(k) ==> m[k].token_supply
        == amount_of(st.total_tokens_minted, denom_of(k.0, k.1))
    &&& forall|d: Seq<char>| #[trigger] st.total_tokens_minted.contains_key(d) ==> exists|
        k: (Seq<char>, Seq<char>),
    |
        #[trigger] m.contains_key(k) && denom_of(k.0, k.1) == d
}

/// The discovery counter equals the number of islands ever discovered.
pub open spec fn counter_consistent(m: LedgerV, st: StateV) -> bool {
    m.dom().finite() && st.islands_discovered == m.dom().len()
}

/// A freshly set-up engine satisfies every invariant.
pub proof fn lemma_initial_invariants(m: LedgerV, st: StateV)
    requires
        m == Map::<(Seq<char>, Seq<char>), IslandV>::empty(),
        st == (StateV { islands_discovered: 0, total_tokens_minted: Map::<Seq<char>, nat>::empty() }),
    ensures
        conserved(m, st),
        counter_consistent(m, st),
        owners_slash_free(m),
{
    assert(m.dom() =~= Set::<(Seq<char>, Seq<char>)>::empty());
}

/// Discovering the same name twice under one owner succeeds the first time
/// and fails the second time with `Duplicate`, leaving island and counters
/// exactly as the first call left them.
pub proof fn lemma_discover_twice(
    m: LedgerV,
    st: StateV,
    owner: Seq<char>,
    name: Seq<char>,
    t1: nat,
    t2: nat,
)
    requires
        !m.contains_key((owner, name)),
        st.islands_discovered < u64::MAX,
    ensures
        ({
            let (m1, st1, r1) = spec_discover(m, st, owner, name, t1);
            let (m2, st2, r2) = spec_discover(m1, st1, owner, name, t2);
            &&& r1 is Ok
            &&& r2 == Err::<IslandV, ContractError>(ContractError::Duplicate)
            &&& m2 == m1
            &&& st2 == st1
        }),
{
}

/// Minting immediately after a successful mint mints zero and changes
/// neither the island nor the counters.
pub proof fn lemma_mint_twice(m: LedgerV, st: StateV, owner: Seq<char>, name: Seq<char>)
    requires
        ({
            let (m1, st1, r1) = spec_mint(m, st, owner, name);
            r1 is Ok
        }),
    ensures
        ({
            let (m1, st1, r1) = spec_mint(m, st, owner, name);
            let (m2, st2, r2) = spec_mint(m1, st1, owner, name);
            &&& r2 == Ok::<nat, ContractError>(0)
            &&& m2 == m1
            &&& st2 == st1
        }),
{
    let (m1, st1, r1) = spec_mint(m, st, owner, name);
    let (m2, st2, r2) = spec_mint(m1, st1, owner, name);
    assert(m1[(owner, name)].resources == 0);
    assert(m2 =~= m1);
}

/// A successful mint raises the island's supply and its denomination's
/// recorded amount by exactly the amount it returns, and a discovered
/// island starts with no supply; so after any run of operations the supply
/// equals the sum of every amount mint ever returned for that island.
pub proof fn lemma_mint_returns_the_increase(
    m: LedgerV,
    st: StateV,
    owner: Seq<char>,
    name: Seq<char>,
)
    requires
        ({
            let (m1, st1, r1) = spec_mint(m, st, owner, name);
            r1 is Ok
        }),
    ensures
        ({
            let (m1, st1, r1) = spec_mint(m, st, owner, name);
            let returned = r1->Ok_0;
            &&& m1[(owner, name)].token_supply == m[(owner, name)].token_supply + returned
            &&& amount_of(st1.total_tokens_minted, denom_of(owner, name)) == amount_of(
                st.total_tokens_minted,
                denom_of(owner, name),
            ) + returned
            &&& m1[(owner, name)].resources == 0
        }),
{
}

/// Discover preserves conservation: a new island starts with no supply and
/// no recorded denomination.
pub proof fn lemma_discover_preserves_conservation(
    m: LedgerV,
    st: StateV,
    owner: Seq<char>,
    name: Seq<char>,
    now: nat,
)
    requires
        conserved(m, st),
        owners_slash_free(m),
        slash_free(owner),
    ensures
        ({
            let (m2, st2, r) = spec_discover(m, st, owner, name, now);
            conserved(m2, st2) && owners_slash_free(m2)
        }),
{
    let (m2, st2, r) = spec_discover(m, st, owner, name, now);
    if !m.contains_key((owner, name)) && st.islands_discovered + 1 <= u64::MAX {
        let d0 = denom_of(owner, name);
        if st.total_tokens_minted.contains_key(d0) {
            let k = choose|k: (Seq<char>, Seq<char>)|
                #[trigger] m.contains_key(k) && denom_of(k.0, k.1) == d0;
            lemma_denom_injective(k.0, k.1, owner, name);
            assert(false);
        }
        assert forall|k: (Seq<char>, Seq<char>)| #[trigger] m2.contains_key(k) implies m2[k].token_supply
            == amount_of(st2.total_tokens_minted, denom_of(k.0, k.1)) by {
            if k != (owner, name) {
                assert(m.contains_key(k));
            }
        }
        assert forall|d: Seq<char>| #[trigger] st2.total_tokens_minted.contains_key(d) implies exists|
            k: (Seq<char>, Seq<char>),
        |
            #[trigger] m2.contains_key(k) && denom_of(k.0, k.1) == d by {
            let k = choose|k: (Seq<char>, Seq<char>)|
                #[trigger] m.contains_key(k) && denom_of(k.0, k.1) == d;
            assert(m2.contains_key(k));
        }
        assert forall|k: (Seq<char>, Seq<char>)| #[trigger] m2.contains_key(k) implies slash_free(
            k.0,
        ) by {
            if k != (owner, name) {
                assert(m.contains_key(k));
            }
        }
    }
}

/// Gather preserves conservation: it neither mints nor touches the
/// counters.
pub proof fn lemma_gather_preserves_conservation(
    m: LedgerV,
    st: StateV,
    owner: Seq<char>,
    name: Seq<char>,
    now: nat,
)
    requires
        conserved(m, st),
    ensures
        ({
            let (m2, r) = spec_gather(m, owner, name, now);
            conserved(m2, st) && (owners_slash_free(m) ==> owners_slash_free(m2))
        }),
{
    let (m2, r) = spec_gather(m, owner, name, now);
    if r is Ok {
        assert forall|k: (Seq<char>, Seq<char>)| #[trigger] m2.contains_key(k) implies m2[k].token_supply
            == amount_of(st.total_tokens_minted, denom_of(k.0, k.1)) by {
            if k != (owner, name) {
                assert(m.contains_key(k));
            } else {
                assert(m.contains_key(k));
                assert(m2[k].token_supply == m[k].token_supply);
            }
        }
        assert forall|d: Seq<char>| #[trigger] st.total_tokens_minted.contains_key(d) implies exists|
            k: (Seq<char>, Seq<char>),
        |
            #[trigger] m2.contains_key(k) && denom_of(k.0, k.1) == d by {
            let k = choose|k: (Seq<char>, Seq<char>)|
                #[trigger] m.contains_key(k) && denom_of(k.0, k.1) == d;
            assert(m2.contains_key(k));
        }
        if owners_slash_free(m) {
            assert forall|k: (Seq<char>, Seq<char>)| #[trigger] m2.contains_key(k) implies slash_free(
                k.0,
            ) by {
                assert(m.contains_key(k));
            }
        }
    }
}

/// Mint preserves conservation: the island's supply and its denomination's
/// recorded amount grow by the same minted amount, and no other island or
/// denomination moves.
pub proof fn lemma_mint_preserves_conservation(
    m: LedgerV,
    st: StateV,
    owner: Seq<char>,
    name: Seq<char>,
)
    requires
        conserved(m, st),
        owners_slash_free(m),
    ensures
        ({
            let (m2, st2, r) = spec_mint(m, st, owner, name);
            conserved(m2, st2) && owners_slash_free(m2)
        }),
{
    let (m2, st2, r) = spec_mint(m, st, owner, name);
    if r is Ok {
        let k0 = (owner, name);
        let d0 = denom_of(owner, name);
        assert forall|k: (Seq<char>, Seq<char>)| #[trigger] m2.contains_key(k) implies m2[k].token_supply
            == amount_of(st2.total_tokens_minted, denom_of(k.0, k.1)) by {
            if k == k0 {
                assert(m.contains_key(k0));
            } else {
                assert(m.contains_key(k));
                if denom_of(k.0, k.1) == d0 {
                    lemma_denom_injective(k.0, k.1, owner, name);
                    assert(false);
                }
            }
        }
        assert forall|d: Seq<char>| #[trigger] st2.total_tokens_minted.contains_key(d) implies exists|
            k: (Seq<char>, Seq<char>),
        |
            #[trigger] m2.contains_key(k) && denom_of(k.0, k.1) == d by {
            if d == d0 {
                assert(m2.contains_key(k0) && denom_of(k0.0, k0.1) == d);
            } else {
                assert(st.total_tokens_minted.contains_key(d));
                let k = choose|k: (Seq<char>, Seq<char>)|
                    #[trigger] m.contains_key(k) && denom_of(k.0, k.1) == d;
                assert(m2.contains_key(k));
            }
        }
        assert forall|k: (Seq<char>, Seq<char>)| #[trigger] m2.contains_key(k) implies slash_free(
            k.0,
        ) by {
            if k != k0 {
                assert(m.contains_key(k));
            } else {
                assert(m.contains_key(k0));
            }
        }
    }
}

/// Discover counts: a successful discover raises the counter by exactly
/// one, matching the one island it adds; a failed discover changes nothing.
pub proof fn lemma_discover_counts(
    m: LedgerV,
    st: StateV,
    owner: Seq<char>,
    name: Seq<char>,
    now: nat,
)
    requires
        counter_consistent(m, st),
    ensures
        ({
            let (m2, st2, r) = spec_discover(m, st, owner, name, now);
            &&& counter_consistent(m2, st2)
            &&& (r is Ok ==> st2.islands_discovered == st.islands_discovered + 1
                && m2.dom().len() == m.dom().len() + 1)
            &&& (r is Err ==> m2 == m && st2 == st)
        }),
{
    let (m2, st2, r) = spec_discover(m, st, owner, name, now);
    if r is Ok {
        assert(m2.dom() =~= m.dom().insert((owner, name)));
    }
}

/// Gather never changes how many islands exist nor the counters.
pub proof fn lemma_gather_keeps_counter(
    m: LedgerV,
    st: StateV,
    owner: Seq<char>,
    name: Seq<char>,
    now: nat,
)
    requires
        counter_consistent(m, st),
    ensures
        ({
            let (m2, r) = spec_gather(m, owner, name, now);
            counter_consistent(m2, st)
        }),
{
    let (m2, r) = spec_gather(m, owner, name, now);
    if r is Ok {
        assert(m2.dom() =~= m.dom());
    }
}

/// Mint never changes how many islands exist nor the discovery counter.
pub proof fn lemma_mint_keeps_counter(m: LedgerV, st: StateV, owner: Seq<char>, name: Seq<char>)
    requires
        counter_consistent(m, st),
    ensures
        ({
            let (m2, st2, r) = spec_mint(m, st, owner, name);
            counter_consistent(m2, st2)
        }),
{
    let (m2, st2, r) = spec_mint(m, st, owner, name);
    if r is Ok {
        assert(m2.dom() =~= m.dom());
    }
}

} // verus!
