// Optimization passes over the IR.

use vstd::prelude::*;

pub mod algebraic;
pub mod branch_fold;
pub mod cfg;
pub mod const_prop;
pub mod copy_prop;
pub mod cse;
pub mod dce;
pub mod dead_store;
pub mod dominance;
pub mod flag_write_elim;
pub mod global_cse;
pub mod licm;
pub mod peephole;
pub mod pipeline;
pub mod redundant_load;

use crate::ir::{BasicBlock, Function, Stmt};

verus! {

/// Each pass transforms a `Function` into another `Function`.
pub trait Pass {
    fn name(&self) -> &'static str;

    fn run(&self, func: Function) -> Function;
}

/// `out` keeps the entry and the block ids of `func`, and each of its blocks
/// holds `f` applied to the statements of the block at the same position.
pub open spec fn blockwise(func: Function, out: Function, f: spec_fn(Seq<Stmt>) -> Seq<Stmt>) -> bool {
    &&& out.entry == func.entry
    &&& out.blocks.len() == func.blocks.len()
    &&& forall|i: int|
        0 <= i < func.blocks.len() ==> {
            &&& (#[trigger] out.blocks[i]).id == func.blocks[i].id
            &&& out.blocks[i].stmts@ == f(func.blocks[i].stmts@)
        }
}

/// Rebuild `func` with `g` applied to the statements of every block.
pub(crate) fn map_blocks<G: Fn(Vec<Stmt>) -> Vec<Stmt>>(
    func: Function,
    g: &G,
    Ghost(f): Ghost<spec_fn(Seq<Stmt>) -> Seq<Stmt>>,
) -> (out: Function)
    requires
        forall|s: Vec<Stmt>| g.requires((s,)),
        forall|s: Vec<Stmt>, r: Vec<Stmt>| g.ensures((s,), r) ==> r@ == f(s@),
    ensures
        blockwise(func, out, f),
{
    broadcast use vstd::std_specs::vec::axiom_spec_into_iter;
    let Function { blocks, entry } = func;
    let ghost orig = blocks@;
    let mut out: Vec<BasicBlock> = Vec::new();
    for block in it: blocks.into_iter()
        invariant
            it.seq() == orig,
            out.len() == it.index(),
            forall|s: Vec<Stmt>| g.requires((s,)),
            forall|s: Vec<Stmt>, r: Vec<Stmt>| g.ensures((s,), r) ==> r@ == f(s@),
            forall|i: int|
                0 <= i < out.len() ==> {
                    &&& (#[trigger] out[i]).id == orig[i].id
                    &&& out[i].stmts@ == f(orig[i].stmts@)
                },
    {
        let BasicBlock { id, stmts } = block;
        let new_stmts = g(stmts);
        out.push(BasicBlock { id, stmts: new_stmts });
    }
    Function { blocks: out, entry }
}

/// The statements of `s` whose positions are in `keep`, in order.
pub open spec fn select(s: Seq<Stmt>, keep: Set<int>) -> Seq<Stmt>
    decreases s.len(),
{
    if s.len() == 0 {
        Seq::empty()
    } else {
        let prefix = select(s.drop_last(), keep);
        if keep.contains(s.len() - 1) {
            prefix.push(s.last())
        } else {
            prefix
        }
    }
}

/// Keep the statements at the positions `keep` holds.
pub(crate) fn select_exec<K: Fn(usize) -> bool>(stmts: Vec<Stmt>, keep: &K, Ghost(ks): Ghost<Set<int>>) -> (out: Vec<Stmt>)
    requires
        forall|i: usize| keep.requires((i,)),
        forall|i: usize, b: bool| keep.ensures((i,), b) ==> b == ks.contains(i as int),
    ensures
        out@ == select(stmts@, ks),
{
    broadcast use vstd::std_specs::vec::axiom_spec_into_iter;
    let ghost s = stmts@;
    let n = stmts.len();
    let mut out: Vec<Stmt> = Vec::new();
    let mut i: usize = 0;
    for stmt in it: stmts.into_iter()
        invariant
            it.seq() == s,
            s.len() == n,
            i == it.index(),
            out@ == select(s.take(i as int), ks),
            forall|i: usize| keep.requires((i,)),
            forall|i: usize, b: bool| keep.ensures((i,), b) ==> b == ks.contains(i as int),
    {
        proof {
            assert(s.take(i + 1).drop_last() =~= s.take(i as int));
        }
        if keep(i) {
            out.push(stmt);
        }
        i = i + 1;
    }
    proof {
        assert(s.take(s.len() as int) =~= s);
    }
    out
}

/// A kept position's statement survives selection.
pub proof fn lemma_select_keeps(s: Seq<Stmt>, keep: Set<int>, i: int)
    requires
        0 <= i < s.len(),
        keep.contains(i),
    ensures
        select(s, keep).contains(s[i]),
    decreases s.len(),
{
    if i < s.len() - 1 {
        lemma_select_keeps(s.drop_last(), keep, i);
        let p = select(s.drop_last(), keep);
        let k = choose|k: int| 0 <= k < p.len() && p[k] == s.drop_last()[i];
        if keep.contains(s.len() - 1) {
            assert(select(s, keep)[k] == s[i]);
        }
    } else {
        assert(select(s, keep).last() == s[i]);
    }
}

} // verus!
