//! Dead store elimination pass.
//!
//! A `StoreMem` to `(addr_ref, size)` that is overwritten by a later
//! `StoreMem` to the same key, with no intervening memory op that could
//! observe it, is dropped. `StoreMemTSO` (release-ordered), `LoadMem`,
//! `LoadMemTSO`, and `Fence` clear the pending table — the earlier store may
//! have been observed.

use std::collections::{HashMap, HashSet};

use vstd::prelude::*;

use crate::ir::{Function, Op, Stmt};
use crate::passes::redundant_load::{access_key, access_key_exec};
use crate::passes::{blockwise, lemma_select_keeps, map_blocks, select, select_exec, Pass};

verus! {

broadcast use vstd::std_specs::hash::group_hash_axioms;

/// Pending stores (key to position) and dead store positions after
/// statement `s[i]` is seen.
pub open spec fn ds_step(st: Stmt, i: usize, state: (Map<u64, usize>, Set<usize>)) -> (Map<u64, usize>, Set<usize>) {
    let (pending, dead) = state;
    match st.op {
        Op::StoreMem(m) => {
            let key = access_key(m.addr, m.size);
            (
                pending.insert(key, i),
                if pending.contains_key(key) { dead.insert(pending[key]) } else { dead },
            )
        },
        Op::LoadMem(_) | Op::LoadMemTSO(_) | Op::StoreMemTSO(_) | Op::Fence(_) => (Map::empty(), dead),
        _ => (pending, dead),
    }
}

/// The state after the first `n` statements of a block.
pub open spec fn ds_state(s: Seq<Stmt>, n: nat) -> (Map<u64, usize>, Set<usize>)
    decreases n,
{
    if n == 0 || n > s.len() {
        (Map::empty(), Set::empty())
    } else {
        ds_step(s[n - 1], (n - 1) as usize, ds_state(s, (n - 1) as nat))
    }
}

/// Positions of the stores a block overwrites before anything could observe them.
pub open spec fn ds_dead(s: Seq<Stmt>) -> Set<usize> {
    ds_state(s, s.len()).1
}

/// A block after dead store elimination.
pub open spec fn ds_block(s: Seq<Stmt>) -> Seq<Stmt> {
    select(s, Set::new(|j: int| !ds_dead(s).contains(j as usize)))
}

fn dead_store_block(stmts: Vec<Stmt>) -> (out: Vec<Stmt>)
    ensures
        out@ == ds_block(stmts@),
{
    let ghost s = stmts@;
    let mut pending: HashMap<u64, usize> = HashMap::new();
    let mut dead: HashSet<usize> = HashSet::new();
    let n = stmts.len();
    let mut i: usize = 0;
    while i < n
        invariant
            i <= n,
            n == s.len(),
            s == stmts@,
            (pending@, dead@) == ds_state(s, i as nat),
        decreases n - i,
    {
        match &stmts[i].op {
            Op::StoreMem(st) => {
                let key = access_key_exec(st.addr, st.size);
                if let Some(prev) = pending.get(&key) {
                    dead.insert(*prev);
                }
                pending.insert(key, i);
            },
            Op::LoadMem(_) | Op::LoadMemTSO(_) | Op::StoreMemTSO(_) | Op::Fence(_) => {
                pending.clear();
            },
            _ => {},
        }
        i = i + 1;
    }
    let dead_ref = &dead;
    let keep = |j: usize| -> (b: bool)
        ensures
            b == !dead_ref@.contains(j),
        { !dead_ref.contains(&j) };
    select_exec(stmts, &keep, Ghost(Set::new(|j: int| !dead@.contains(j as usize))))
}

#[derive(Debug, Default, Clone, Copy, PartialEq, Eq)]
pub struct DeadStore;

impl DeadStore {
    #[must_use]
    pub fn new() -> Self {
        Self
    }
}

/// Per-block dead store elimination.
pub fn dead_store_eliminate(func: Function) -> (out: Function)
    ensures
        blockwise(func, out, |s: Seq<Stmt>| ds_block(s)),
{
    map_blocks(func, &dead_store_block, Ghost(|s: Seq<Stmt>| ds_block(s)))
}

impl Pass for DeadStore {
    fn name(&self) -> (r: &'static str)
        ensures
            r@ == "dead_store_eliminate"@,
    {
        "dead_store_eliminate"
    }

    fn run(&self, func: Function) -> (out: Function)
        ensures
            blockwise(func, out, |s: Seq<Stmt>| ds_block(s)),
    {
        dead_store_eliminate(func)
    }
}

proof fn lemma_ds_state_stores(s: Seq<Stmt>, n: nat)
    requires
        n <= s.len(),
        s.len() <= usize::MAX,
    ensures
        forall|k: u64| #[trigger] ds_state(s, n).0.contains_key(k) ==> {
            let p = ds_state(s, n).0[k] as int;
            0 <= p < n && s[p].op is StoreMem
        },
        forall|p: usize| #[trigger] ds_state(s, n).1.contains(p) ==> p < n && s[p as int].op is StoreMem,
    decreases n,
{
    if n > 0 {
        lemma_ds_state_stores(s, (n - 1) as nat);
    }
}

/// A TSO store is never killed: dead store elimination keeps every
/// `StoreMemTSO` of a block.
pub proof fn law_tso_store_never_killed(s: Seq<Stmt>, j: int)
    requires
        0 <= j < s.len(),
        s.len() <= usize::MAX,
        s[j].op is StoreMemTSO,
    ensures
        ds_block(s).contains(s[j]),
{
    lemma_ds_state_stores(s, s.len());
    assert(!ds_dead(s).contains(j as usize));
    lemma_select_keeps(s, Set::new(|i: int| !ds_dead(s).contains(i as usize)), j);
}

} // verus!
