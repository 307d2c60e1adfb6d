//! Redundant load elimination pass.
//!
//! A second `LoadMem` through the same `(addr_ref, size)` with no intervening
//! store or fence is rewritten to a copy of the prior load's result
//! (`Or %v, %v`), letting copy-propagation and DCE do downstream cleanup.
//! `LoadMemTSO` is never forwarded (acquire semantics).

use std::collections::HashMap;

use vstd::prelude::*;

use crate::ir::{BinOp, BinOpKind, Function, Op, OpSize, Ref, Stmt};
use crate::passes::{blockwise, map_blocks, Pass};

verus! {

broadcast use vstd::std_specs::hash::group_hash_axioms;

/// The table key of a memory access: its address ref and size packed together.
pub open spec fn access_key(addr: Ref, size: OpSize) -> u64 {
    (addr as u64 * 4 + match size {
        OpSize::I8 => 0u64,
        OpSize::I16 => 1u64,
        OpSize::I32 => 2u64,
        OpSize::I64 => 3u64,
    }) as u64
}

pub(crate) fn access_key_exec(addr: Ref, size: OpSize) -> (r: u64)
    ensures
        r == access_key(addr, size),
{
    let s: u64 = match size {
        OpSize::I8 => 0,
        OpSize::I16 => 1,
        OpSize::I32 => 2,
        OpSize::I64 => 3,
    };
    addr as u64 * 4 + s
}

/// The statement after forwarding, given the loads available before it.
pub open spec fn rl_stmt(st: Stmt, env: Map<u64, Ref>) -> Stmt {
    match (st.result, st.op) {
        (Some(r), Op::LoadMem(l)) => {
            let key = access_key(l.addr, l.size);
            if env.contains_key(key) {
                Stmt { result: Some(r), op: Op::BinOp(BinOp { op: BinOpKind::Or, lhs: env[key], rhs: env[key], size: l.size }) }
            } else {
                st
            }
        },
        _ => st,
    }
}

/// The loads available after a statement.
pub open spec fn rl_env_after(st: Stmt, env: Map<u64, Ref>) -> Map<u64, Ref> {
    match st.op {
        Op::LoadMem(l) => match st.result {
            Some(r) => {
                let key = access_key(l.addr, l.size);
                if env.contains_key(key) { env } else { env.insert(key, r) }
            },
            None => env,
        },
        Op::StoreMem(_) | Op::StoreMemTSO(_) | Op::Fence(_) => Map::empty(),
        _ => env,
    }
}

/// The loads available before statement `n` of a block.
pub open spec fn rl_env(s: Seq<Stmt>, n: nat) -> Map<u64, Ref>
    decreases n,
{
    if n == 0 || n > s.len() {
        Map::empty()
    } else {
        rl_env_after(s[n - 1], rl_env(s, (n - 1) as nat))
    }
}

/// A block after redundant-load elimination.
pub open spec fn rl_block(s: Seq<Stmt>) -> Seq<Stmt> {
    Seq::new(s.len(), |i: int| rl_stmt(s[i], rl_env(s, i as nat)))
}

fn redundant_load_block(stmts: Vec<Stmt>) -> (out: Vec<Stmt>)
    ensures
        out@ == rl_block(stmts@),
{
    broadcast use vstd::std_specs::vec::axiom_spec_into_iter;
    let ghost s = stmts@;
    let mut last_load: HashMap<u64, u32> = HashMap::new();
    let mut out: Vec<Stmt> = Vec::new();
    for stmt in it: stmts.into_iter()
        invariant
            it.seq() == s,
            out.len() == it.index(),
            last_load@ == rl_env(s, it.index() as nat),
            forall|i: int| 0 <= i < out.len() ==> out[i] == rl_stmt(s[i], rl_env(s, i as nat)),
    {
        let mut forwarded: Option<Stmt> = None;
        match &stmt.op {
            Op::LoadMem(l) => {
                if let Some(result) = stmt.result {
                    let key = access_key_exec(l.addr, l.size);
                    if let Some(prev) = last_load.get(&key) {
                        let prev = *prev;
                        forwarded = Some(Stmt::new(
                            Some(result),
                            Op::BinOp(BinOp { op: BinOpKind::Or, lhs: prev, rhs: prev, size: l.size }),
                        ));
                    } else {
                        last_load.insert(key, result);
                    }
                }
            },
            Op::StoreMem(_) | Op::StoreMemTSO(_) | Op::Fence(_) => {
                // Any store could alias; a fence orders memory.
                last_load.clear();
            },
            _ => {},
        }
        match forwarded {
            Some(copy) => out.push(copy),
            None => out.push(stmt),
        }
    }
    proof {
        assert(out@ =~= rl_block(s));
    }
    out
}

#[derive(Debug, Default, Clone, Copy, PartialEq, Eq)]
pub struct RedundantLoad;

impl RedundantLoad {
    #[must_use]
    pub fn new() -> Self {
        Self
    }
}

/// Per-block redundant-load elimination.
pub fn redundant_load_eliminate(func: Function) -> (out: Function)
    ensures
        blockwise(func, out, |s: Seq<Stmt>| rl_block(s)),
{
    map_blocks(func, &redundant_load_block, Ghost(|s: Seq<Stmt>| rl_block(s)))
}

impl Pass for RedundantLoad {
    fn name(&self) -> (r: &'static str)
        ensures
            r@ == "redundant_load_eliminate"@,
    {
        "redundant_load_eliminate"
    }

    fn run(&self, func: Function) -> (out: Function)
        ensures
            blockwise(func, out, |s: Seq<Stmt>| rl_block(s)),
    {
        redundant_load_eliminate(func)
    }
}

/// An acquire load (`LoadMemTSO`) is never forwarded: the pass leaves it
/// as it is.
pub proof fn law_tso_load_never_forwarded(s: Seq<Stmt>, j: int)
    requires
        0 <= j < s.len(),
        s[j].op is LoadMemTSO,
    ensures
        rl_block(s)[j] == s[j],
{
}

} // verus!
