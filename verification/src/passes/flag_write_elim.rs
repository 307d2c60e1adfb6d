//! Flag write elimination pass.
//!
//! Drops implicit flag writes whose flags are never consumed. Flag writers:
//! `CmpFlags`, `AluFlags`, `Compare`, `WriteFlagsCountZero`. Flag readers:
//! `CondJumpRel`, `Select`. `Compare` is never dropped (its result ref may be
//! consumed elsewhere); only the result-less writers (`CmpFlags`, `AluFlags`,
//! `WriteFlagsCountZero`) are droppable.

use std::collections::HashSet;

use vstd::prelude::*;

use crate::ir::{Function, Op, Stmt};
use crate::passes::{blockwise, lemma_select_keeps, map_blocks, select, select_exec, Pass};

verus! {

broadcast use vstd::std_specs::hash::group_hash_axioms;

/// The pending writer, whether it is droppable, and the dropped positions.
pub type FlagState = (Option<usize>, bool, Set<usize>);

/// `drop` with the pending writer added when it is droppable.
pub open spec fn fw_flush(state: FlagState) -> Set<usize> {
    match state.0 {
        Some(prev) => if state.1 { state.2.insert(prev) } else { state.2 },
        None => state.2,
    }
}

/// The state after statement `s[i]` is seen.
pub open spec fn fw_step(st: Stmt, i: usize, state: FlagState) -> FlagState {
    match st.op {
        Op::CmpFlags(_) | Op::AluFlags(_) | Op::WriteFlagsCountZero(_) => (Some(i), true, fw_flush(state)),
        Op::Compare(_) => (Some(i), false, fw_flush(state)),
        Op::CondJumpRel(_) | Op::Select(_) => (None, false, state.2),
        _ => state,
    }
}

/// The state after the first `n` statements of a block.
pub open spec fn fw_state(s: Seq<Stmt>, n: nat) -> FlagState
    decreases n,
{
    if n == 0 || n > s.len() {
        (None, false, Set::empty())
    } else {
        fw_step(s[n - 1], (n - 1) as usize, fw_state(s, (n - 1) as nat))
    }
}

/// Positions of the flag writes of a block whose flags no reader consumes.
pub open spec fn fw_dropped(s: Seq<Stmt>) -> Set<usize> {
    fw_flush(fw_state(s, s.len()))
}

/// A block after flag write elimination.
pub open spec fn fw_block(s: Seq<Stmt>) -> Seq<Stmt> {
    select(s, Set::new(|j: int| !fw_dropped(s).contains(j as usize)))
}

fn flag_write_block(stmts: Vec<Stmt>) -> (out: Vec<Stmt>)
    ensures
        out@ == fw_block(stmts@),
{
    let ghost s = stmts@;
    let n = stmts.len();
    let mut drop: HashSet<usize> = HashSet::new();
    // Index of the most-recent flag writer; None if none pending.
    let mut pending_writer: Option<usize> = None;
    let mut pending_droppable = false;
    let mut i: usize = 0;
    while i < n
        invariant
            i <= n,
            n == s.len(),
            s == stmts@,
            (pending_writer, pending_droppable, drop@) == fw_state(s, i as nat),
        decreases n - i,
    {
        match &stmts[i].op {
            Op::CmpFlags(_) | Op::AluFlags(_) | Op::WriteFlagsCountZero(_) => {
                if let Some(prev) = pending_writer {
                    if pending_droppable {
                        drop.insert(prev);
                    }
                }
                pending_writer = Some(i);
                pending_droppable = true;
            },
            Op::Compare(_) => {
                if let Some(prev) = pending_writer {
                    if pending_droppable {
                        drop.insert(prev);
                    }
                }
                pending_writer = Some(i);
                pending_droppable = false;
            },
            Op::CondJumpRel(_) | Op::Select(_) => {
                // Reader pins the most recent writer.
                pending_writer = None;
                pending_droppable = false;
            },
            _ => {},
        }
        i = i + 1;
    }
    // End-of-block: a still-pending droppable write has no consumer.
    if let Some(prev) = pending_writer {
        if pending_droppable {
            drop.insert(prev);
        }
    }
    let drop_ref = &drop;
    let keep = |j: usize| -> (b: bool)
        ensures
            b == !drop_ref@.contains(j),
        { !drop_ref.contains(&j) };
    select_exec(stmts, &keep, Ghost(Set::new(|j: int| !drop@.contains(j as usize))))
}

#[derive(Debug, Default, Clone, Copy, PartialEq, Eq)]
pub struct FlagWriteElim;

impl FlagWriteElim {
    #[must_use]
    pub fn new() -> Self {
        Self
    }
}

/// Per-block flag write elimination.
pub fn flag_write_elimination(func: Function) -> (out: Function)
    ensures
        blockwise(func, out, |s: Seq<Stmt>| fw_block(s)),
{
    map_blocks(func, &flag_write_block, Ghost(|s: Seq<Stmt>| fw_block(s)))
}

impl Pass for FlagWriteElim {
    fn name(&self) -> (r: &'static str)
        ensures
            r@ == "flag_write_elimination"@,
    {
        "flag_write_elimination"
    }

    fn run(&self, func: Function) -> (out: Function)
        ensures
            blockwise(func, out, |s: Seq<Stmt>| fw_block(s)),
    {
        flag_write_elimination(func)
    }
}

/// Whether the op writes flags that nothing but a later flag read needs.
pub open spec fn droppable_writer(op: Op) -> bool {
    op is CmpFlags || op is AluFlags || op is WriteFlagsCountZero
}

proof fn lemma_fw_state_writers(s: Seq<Stmt>, n: nat)
    requires
        n <= s.len(),
        s.len() <= usize::MAX,
    ensures
        fw_state(s, n).0 matches Some(p) ==> p < n && (fw_state(s, n).1 ==> droppable_writer(s[p as int].op)),
        forall|p: usize| #[trigger] fw_state(s, n).2.contains(p) ==> p < n && droppable_writer(s[p as int].op),
    decreases n,
{
    if n > 0 {
        lemma_fw_state_writers(s, (n - 1) as nat);
    }
}

/// A `Compare` is never dropped: flag write elimination keeps every
/// `Compare` of a block.
pub proof fn law_compare_never_dropped(s: Seq<Stmt>, j: int)
    requires
        0 <= j < s.len(),
        s.len() <= usize::MAX,
        s[j].op is Compare,
    ensures
        fw_block(s).contains(s[j]),
{
    lemma_fw_state_writers(s, s.len());
    assert(!fw_dropped(s).contains(j as usize));
    lemma_select_keeps(s, Set::new(|i: int| !fw_dropped(s).contains(i as usize)), j);
}

} // verus!
