//! Control-flow graph analysis for IR functions.
//!
//! Provides the successor/postorder/dominator/natural-loop primitives that
//! global CSE and loop-invariant motion need.
//!
//! Only intra-function, block-targeting terminators define edges:
//! `Jump{target_block}`, `CondJump{if_true,if_false}`, and
//! `CondJumpFlags{if_true,if_false}`. Guest-PC terminators (`JumpRel`,
//! `CondJumpRel`, `Return`, `JumpReg`, ...) leave the function and contribute
//! no intra-function successors.

use std::collections::{HashMap, HashSet};

use vstd::prelude::*;

use crate::ir::{BasicBlock, Function, Op, Stmt};
use crate::passes::dominance;
use crate::passes::dominance::{immediate_dominator, lemma_dominates_refl_entry, lemma_dominates_trans, lemma_dominators_ordered, lemma_idom_unique, lemma_order_reached, lemma_path_within, lemma_sole_pred_idom, listed_after, path_dominates, reach_avoiding, reaches, reaches_avoiding};

verus! {

broadcast use vstd::std_specs::hash::group_hash_axioms;

/// `out` with `id` appended unless it already holds it.
pub open spec fn push_unique(out: Seq<u32>, id: u32) -> Seq<u32> {
    if out.contains(id) { out } else { out.push(id) }
}

/// The block targets named by the first `n` statements, deduplicated in
/// first-seen order.
pub open spec fn targets_of(s: Seq<Stmt>, n: nat) -> Seq<u32>
    decreases n,
{
    if n == 0 || n > s.len() {
        Seq::empty()
    } else {
        let prev = targets_of(s, (n - 1) as nat);
        match s[n - 1].op {
            Op::Jump(j) => push_unique(prev, j.target_block),
            Op::CondJump(c) => push_unique(push_unique(prev, c.if_true), c.if_false),
            Op::CondJumpFlags(c) => push_unique(push_unique(prev, c.if_true), c.if_false),
            _ => prev,
        }
    }
}

/// Position of the first block with id `id`, if any.
pub open spec fn block_index(func: Function, id: u32) -> Option<int> {
    if exists|i: int| 0 <= i < func.blocks.len() && func.blocks[i].id == id {
        Some(choose|i: int| 0 <= i < func.blocks.len() && func.blocks[i].id == id
            && forall|k: int| 0 <= k < i ==> func.blocks[k].id != id)
    } else {
        None
    }
}

/// Whether some block has id `id`.
pub open spec fn is_block_id(func: Function, id: u32) -> bool {
    exists|i: int| 0 <= i < func.blocks.len() && func.blocks[i].id == id
}

/// Successor block ids of the first block with id `id` (in first-seen order,
/// deduplicated); empty when no block has that id.
#[verifier::opaque]
pub open spec fn spec_successors(func: Function, id: u32) -> Seq<u32> {
    match block_index(func, id) {
        Some(i) => targets_of(func.blocks[i].stmts@, func.blocks[i].stmts@.len()),
        None => Seq::empty(),
    }
}

/// The CFG edges `(successor, block)` of the first `n` blocks, in block
/// order, each block's successors in the order `successors` lists them.
#[verifier::opaque]
pub open spec fn edges_upto(func: Function, n: nat) -> Seq<(u32, u32)>
    decreases n,
{
    if n == 0 || n > func.blocks.len() {
        Seq::empty()
    } else {
        let id = func.blocks[n - 1].id;
        edges_upto(func, (n - 1) as nat) + spec_successors(func, id).map_values(|s: u32| (s, id))
    }
}

/// All CFG edges `(successor, block)` of `func`.
pub open spec fn cfg_edges(func: Function) -> Seq<(u32, u32)> {
    edges_upto(func, func.blocks.len() as nat)
}

/// Number of edges into `b` among the first `k` edges of `e`.
pub open spec fn in_count(e: Seq<(u32, u32)>, b: u32, k: nat) -> nat
    decreases k,
{
    if k == 0 || k > e.len() {
        0
    } else {
        in_count(e, b, (k - 1) as nat) + if e[k - 1].0 == b { 1nat } else { 0nat }
    }
}

/// Source of the first edge into `b` among the first `k` edges of `e`.
pub open spec fn first_in(e: Seq<(u32, u32)>, b: u32, k: nat) -> u32
    decreases k,
{
    if k == 0 || k > e.len() {
        0
    } else if e[k - 1].0 == b && in_count(e, b, (k - 1) as nat) == 0 {
        e[k - 1].1
    } else {
        first_in(e, b, (k - 1) as nat)
    }
}

/// The predecessor of block `b` when exactly one CFG edge enters it.
#[verifier::opaque]
pub open spec fn sole_predecessor(func: Function, b: u32) -> Option<u32> {
    let e = cfg_edges(func);
    if in_count(e, b, e.len()) == 1 {
        Some(first_in(e, b, e.len()))
    } else {
        None
    }
}

/// The edges of `edges_upto(func, a)` are the first ones of
/// `edges_upto(func, b)` when `a <= b`.
pub(crate) proof fn lemma_edges_prefix(func: Function, a: nat, b: nat)
    requires
        a <= b <= func.blocks.len(),
    ensures
        edges_upto(func, a).len() <= edges_upto(func, b).len(),
        forall|i: int| 0 <= i < edges_upto(func, a).len() ==> #[trigger] edges_upto(func, b)[i] == edges_upto(func, a)[i],
    decreases b,
{
    reveal_with_fuel(edges_upto, 2);
    if a < b {
        lemma_edges_prefix(func, a, (b - 1) as nat);
    }
}

/// Block `m` contributes the edge from its `t`-th successor at index
/// `edges_upto(func, m).len() + t` of the CFG edges, below
/// `edges_upto(func, m + 1).len()`.
pub(crate) proof fn lemma_cfg_edge(func: Function, m: int, t: int)
    requires
        0 <= m < func.blocks.len(),
        0 <= t < spec_successors(func, func.blocks[m].id).len(),
    ensures
        edges_upto(func, m as nat).len() + t < edges_upto(func, (m + 1) as nat).len(),
        edges_upto(func, (m + 1) as nat).len() <= cfg_edges(func).len(),
        cfg_edges(func)[edges_upto(func, m as nat).len() + t]
            == (spec_successors(func, func.blocks[m].id)[t], func.blocks[m].id),
{
    reveal_with_fuel(edges_upto, 2);
    lemma_edges_prefix(func, (m + 1) as nat, func.blocks.len() as nat);
    let i = edges_upto(func, m as nat).len() + t;
    assert(edges_upto(func, (m + 1) as nat)[i] == (spec_successors(func, func.blocks[m].id)[t], func.blocks[m].id));
}

/// Two edges into `b` make its count at least two.
pub(crate) proof fn lemma_in_count_two(e: Seq<(u32, u32)>, b: u32, i1: int, i2: int, k: nat)
    requires
        0 <= i1 < i2 < k <= e.len(),
        e[i1].0 == b,
        e[i2].0 == b,
    ensures
        in_count(e, b, k) >= 2,
    decreases k,
{
    if k > i2 + 1 {
        lemma_in_count_two(e, b, i1, i2, (k - 1) as nat);
    } else {
        lemma_in_count_pos(e, b, i1, (k - 1) as nat);
    }
}

/// An edge into `b` makes its count positive.
pub(crate) proof fn lemma_in_count_pos(e: Seq<(u32, u32)>, b: u32, i: int, k: nat)
    requires
        0 <= i < k <= e.len(),
        e[i].0 == b,
    ensures
        in_count(e, b, k) >= 1,
    decreases k,
{
    if k > i + 1 {
        lemma_in_count_pos(e, b, i, (k - 1) as nat);
    }
}

/// When exactly one edge enters `b`, `first_in` names the source of any
/// edge into `b`.
pub(crate) proof fn lemma_first_in(e: Seq<(u32, u32)>, b: u32, i: int, k: nat)
    requires
        0 <= i < k <= e.len(),
        e[i].0 == b,
        in_count(e, b, k) == 1,
    ensures
        first_in(e, b, k) == e[i].1,
    decreases k,
{
    if k > i + 1 {
        lemma_in_count_pos(e, b, i, (k - 1) as nat);
        if e[k - 1].0 == b {
            lemma_in_count_two(e, b, i, k - 1, k);
        }
        lemma_first_in(e, b, i, (k - 1) as nat);
    }
}

/// A successor `k` of a real block `q` is the target of an edge from `q`
/// among the CFG edges.
pub(crate) proof fn lemma_pred_edge(func: Function, k: u32, q: u32) -> (r: (int, int))
    requires
        is_block_id(func, q),
        spec_successors(func, q).contains(k),
    ensures
        0 <= r.0 < cfg_edges(func).len(),
        cfg_edges(func)[r.0] == (k, q),
        0 <= r.1 < func.blocks.len(),
        func.blocks[r.1].id == q,
        edges_upto(func, r.1 as nat).len() <= r.0 < edges_upto(func, (r.1 + 1) as nat).len(),
{
    let m = choose|m: int| 0 <= m < func.blocks.len() && func.blocks[m].id == q;
    let t = choose|t: int| 0 <= t < spec_successors(func, q).len() && spec_successors(func, q)[t] == k;
    lemma_cfg_edge(func, m, t);
    (edges_upto(func, m as nat).len() + t, m)
}

/// When `k` has a sole predecessor, every real block with `k` among its
/// successors is that predecessor.
pub(crate) proof fn lemma_sole_pred(func: Function, k: u32, q: u32)
    requires
        is_block_id(func, q),
        spec_successors(func, q).contains(k),
        sole_predecessor(func, k) is Some,
    ensures
        sole_predecessor(func, k) == Some(q),
{
    reveal(sole_predecessor);
    let (i, m) = lemma_pred_edge(func, k, q);
    lemma_first_in(cfg_edges(func), k, i, cfg_edges(func).len());
}

proof fn lemma_first_block_index(func: Function, id: u32, i: int)
    requires
        0 <= i < func.blocks.len(),
        func.blocks[i].id == id,
        forall|k: int| 0 <= k < i ==> func.blocks[k].id != id,
    ensures
        block_index(func, id) == Some(i),
{
    let j = choose|j: int| 0 <= j < func.blocks.len() && func.blocks[j].id == id
        && forall|k: int| 0 <= k < j ==> func.blocks[k].id != id;
    assert(0 <= j < func.blocks.len() && func.blocks[j].id == id
        && forall|k: int| 0 <= k < j ==> func.blocks[k].id != id);
    if j < i {
        assert(func.blocks[j].id != id);
    } else if i < j {
        assert(func.blocks[i].id != id);
    }
}

fn push_unique_exec(out: &mut Vec<u32>, id: u32)
    ensures
        final(out)@ == push_unique(old(out)@, id),
{
    let mut i: usize = 0;
    while i < out.len()
        invariant
            i <= out.len(),
            forall|k: int| 0 <= k < i ==> out@[k] != id,
        decreases out.len() - i,
    {
        if out[i] == id {
            assert(out@.contains(id));
            return;
        }
        i = i + 1;
    }
    assert(!out@.contains(id));
    out.push(id);
}

/// Successor block ids of `block_id` (in first-seen order, deduplicated).
#[must_use]
pub fn successors(func: &Function, block_id: u32) -> (out: Vec<u32>)
    ensures
        out@ == spec_successors(*func, block_id),
{
    reveal(spec_successors);
    let mut out: Vec<u32> = Vec::new();
    let mut bi: usize = 0;
    while bi < func.blocks.len()
        invariant
            bi <= func.blocks.len(),
            out@ == Seq::<u32>::empty(),
            forall|k: int| 0 <= k < bi ==> func.blocks[k].id != block_id,
        decreases func.blocks.len() - bi,
    {
        if func.blocks[bi].id == block_id {
            proof {
                lemma_first_block_index(*func, block_id, bi as int);
                reveal(spec_successors);
            }
            let stmts = &func.blocks[bi].stmts;
            let mut si: usize = 0;
            while si < stmts.len()
                invariant
                    si <= stmts.len(),
                    out@ == targets_of(stmts@, si as nat),
                decreases stmts.len() - si,
            {
                match &stmts[si].op {
                    Op::Jump(j) => push_unique_exec(&mut out, j.target_block),
                    Op::CondJump(c) => {
                        push_unique_exec(&mut out, c.if_true);
                        push_unique_exec(&mut out, c.if_false);
                    },
                    Op::CondJumpFlags(c) => {
                        push_unique_exec(&mut out, c.if_true);
                        push_unique_exec(&mut out, c.if_false);
                    },
                    _ => {},
                }
                si = si + 1;
            }
            return out;
        }
        bi = bi + 1;
    }
    assert(block_index(*func, block_id) is None);
    assert(out@ == spec_successors(*func, block_id)) by {
        reveal(spec_successors);
    }
    out
}

/// The ids of all blocks.
pub open spec fn block_ids(func: Function) -> Set<u32> {
    Set::new(|id: u32| is_block_id(func, id))
}

pub(crate) proof fn lemma_block_ids(func: Function)
    ensures
        block_ids(func).finite(),
        block_ids(func).len() <= func.blocks.len(),
{
    let ids = func.blocks@.map_values(|b: BasicBlock| b.id);
    ids.lemma_cardinality_of_set();
    vstd::seq_lib::seq_to_set_is_finite(ids);
    assert forall|id: u32| block_ids(func).contains(id) implies ids.to_set().contains(id) by {
        let i = choose|i: int| 0 <= i < func.blocks.len() && func.blocks[i].id == id;
        assert(ids[i] == id);
    }
    vstd::set_lib::lemma_len_subset(block_ids(func), ids.to_set());
}

/// Whether `s` is a successor of `id` that names a real block.
pub open spec fn valid_succ(func: Function, id: u32, s: u32) -> bool {
    spec_successors(func, id).contains(s) && is_block_id(func, s)
}

/// Whether every real successor of every block listed in `order` is in `within`.
pub open spec fn succs_within(func: Function, order: Seq<u32>, within: Set<u32>) -> bool {
    forall|i: int, s: u32| 0 <= i < order.len() && #[trigger] valid_succ(func, order[i], s) ==> within.contains(s)
}

pub(crate) fn block_id_set(func: &Function) -> (valid: HashSet<u32>)
    ensures
        valid@ == block_ids(*func),
{
    let mut valid: HashSet<u32> = HashSet::new();
    let mut i: usize = 0;
    while i < func.blocks.len()
        invariant
            i <= func.blocks.len(),
            forall|x: u32| #[trigger] valid@.contains(x) <==> exists|j: int| 0 <= j < i && func.blocks[j].id == x,
        decreases func.blocks.len() - i,
    {
        valid.insert(func.blocks[i].id);
        i = i + 1;
    }
    assert(valid@ =~= block_ids(*func));
    valid
}

/// A depth-first visit of `id` (already in `visited`) with `fuel` levels of
/// recursion to go: the walk over its successors, then `id` appended to
/// `order`. Gives the visited set and the order after it.
pub open spec fn dfs_visit(func: Function, fuel: nat, visited: Set<u32>, order: Seq<u32>, id: u32) -> (Set<u32>, Seq<u32>)
    decreases fuel, 0nat,
{
    if fuel == 0 {
        (visited, order)
    } else {
        let r = dfs_children(func, (fuel - 1) as nat, visited, order, spec_successors(func, id), 0);
        (r.0, r.1.push(id))
    }
}

/// The walk over `succs[k..]`: each real block not yet visited is marked
/// visited and visited depth-first, in order.
pub open spec fn dfs_children(func: Function, fuel: nat, visited: Set<u32>, order: Seq<u32>, succs: Seq<u32>, k: nat) -> (Set<u32>, Seq<u32>)
    decreases fuel, succs.len() - k + 1,
{
    if k >= succs.len() {
        (visited, order)
    } else {
        let next = succs[k as int];
        if is_block_id(func, next) && !visited.contains(next) {
            let r = dfs_visit(func, fuel, visited.insert(next), order, next);
            dfs_children(func, fuel, r.0, r.1, succs, k + 1)
        } else {
            dfs_children(func, fuel, visited, order, succs, k + 1)
        }
    }
}

/// Some later entry of `order` has `order[i]` among its successors: the
/// entry it was reached from.
pub open spec fn has_parent(func: Function, order: Seq<u32>, i: int) -> bool {
    exists|p: int| i < p < order.len() && #[trigger] spec_successors(func, order[p]).contains(order[i])
}

proof fn lemma_has_parent_extend(func: Function, a: Seq<u32>, b: Seq<u32>, i: int)
    requires
        a.len() <= b.len(),
        0 <= i < a.len(),
        forall|j: int| 0 <= j < a.len() ==> b[j] == a[j],
        has_parent(func, a, i),
    ensures
        has_parent(func, b, i),
{
    let p = choose|p: int| i < p < a.len() && #[trigger] spec_successors(func, a[p]).contains(a[i]);
    assert(b[p] == a[p] && b[i] == a[i]);
    assert(spec_successors(func, b[p]).contains(b[i]));
}

/// Depth-first visit of `id` (already marked visited): visits every real,
/// not yet visited successor in order, then appends `id` to `order`.
#[verifier::spinoff_prover]
#[verifier::rlimit(50)]
fn dfs(func: &Function, valid: &HashSet<u32>, id: u32, visited: &mut HashSet<u32>, order: &mut Vec<u32>, Ghost(fuel): Ghost<nat>)
    requires
        fuel + old(visited)@.len() > func.blocks.len(),
        valid@ == block_ids(*func),
        old(visited)@.subset_of(valid@),
        old(visited)@.contains(id),
        !old(order)@.contains(id),
        old(order)@.no_duplicates(),
        forall|x: u32| old(order)@.contains(x) ==> old(visited)@.contains(x),
        succs_within(*func, old(order)@, old(visited)@),
    ensures
        old(visited)@.subset_of(final(visited)@),
        final(visited)@.subset_of(valid@),
        final(order)@.len() > 0,
        final(order)@.last() == id,
        final(order)@.no_duplicates(),
        forall|x: u32| #[trigger] final(order)@.contains(x) <==> (old(order)@.contains(x) || x == id
            || (final(visited)@.contains(x) && !old(visited)@.contains(x))),
        succs_within(*func, final(order)@, final(visited)@),
        (final(visited)@, final(order)@) == dfs_visit(*func, fuel, old(visited)@, old(order)@, id),
        old(order)@.len() <= final(order)@.len(),
        forall|i: int| 0 <= i < old(order)@.len() ==> final(order)@[i] == old(order)@[i],
        forall|i: int| old(order)@.len() <= i < final(order)@.len() - 1 ==> has_parent(*func, final(order)@, i),
    decreases func.blocks.len() - old(visited)@.len(),
{
    broadcast use vstd::seq_lib::group_seq_properties;
    proof {
        lemma_block_ids(*func);
        vstd::set_lib::lemma_len_subset(visited@, valid@);
    }
    let ghost v0 = visited@;
    let ghost o0 = order@;
    let succs = successors(func, id);
    let mut k: usize = 0;
    while k < succs.len()
        invariant
            k <= succs.len(),
            succs@ == spec_successors(*func, id),
            valid@ == block_ids(*func),
            block_ids(*func).finite(),
            block_ids(*func).len() <= func.blocks.len(),
            v0 == old(visited)@,
            v0.subset_of(visited@),
            visited@.subset_of(valid@),
            v0.contains(id),
            !order@.contains(id),
            order@.no_duplicates(),
            forall|x: u32| #[trigger] order@.contains(x) <==> (o0.contains(x)
                || (visited@.contains(x) && !v0.contains(x))),
            forall|x: u32| o0.contains(x) ==> v0.contains(x),
            succs_within(*func, order@, visited@),
            forall|j: int| 0 <= j < k && is_block_id(*func, #[trigger] succs@[j]) ==> visited@.contains(succs@[j]),
            fuel + v0.len() > func.blocks.len(),
            fuel > 0,
            dfs_children(*func, (fuel - 1) as nat, visited@, order@, succs@, k as nat)
                == dfs_children(*func, (fuel - 1) as nat, v0, o0, succs@, 0),
            o0.len() <= order@.len(),
            forall|i: int| 0 <= i < o0.len() ==> order@[i] == o0[i],
            forall|i: int| o0.len() <= i < order@.len() ==> has_parent(*func, order@, i) || succs@.contains(#[trigger] order@[i]),
        decreases succs.len() - k,
    {
        let next = succs[k];
        let ghost vk = visited@;
        let ghost ok = order@;
        if valid.contains(&next) && !visited.contains(&next) {
            let ghost vb = visited@;
            visited.insert(next);
            proof {
                vstd::set_lib::lemma_len_subset(visited@, valid@);
                vstd::set_lib::lemma_len_subset(vb, valid@);
                vstd::set_lib::lemma_len_subset(v0, vb);
                assert(vb.insert(next).len() == vb.len() + 1);
                assert(visited@.len() > v0.len());
                assert(valid@.contains(next));
            }
            dfs(func, valid, next, visited, order, Ghost((fuel - 1) as nat));
            proof {
                assert forall|i: int| o0.len() <= i < order@.len()
                    implies has_parent(*func, order@, i) || succs@.contains(#[trigger] order@[i]) by {
                    if i < ok.len() {
                        assert(order@[i] == ok[i]);
                        if has_parent(*func, ok, i) {
                            lemma_has_parent_extend(*func, ok, order@, i);
                        }
                    } else if i == order@.len() - 1 {
                        assert(order@[i] == succs@[k as int]);
                    }
                }
                assert(dfs_children(*func, (fuel - 1) as nat, vk, ok, succs@, k as nat)
                    == dfs_children(*func, (fuel - 1) as nat, visited@, order@, succs@, (k + 1) as nat));
            }
        } else {
            proof {
                assert(dfs_children(*func, (fuel - 1) as nat, vk, ok, succs@, k as nat)
                    == dfs_children(*func, (fuel - 1) as nat, visited@, order@, succs@, (k + 1) as nat));
            }
        }
        k = k + 1;
    }
    proof {
        assert(dfs_children(*func, (fuel - 1) as nat, visited@, order@, succs@, k as nat) == (visited@, order@));
    }
    let ghost before_push = order@;
    order.push(id);
    proof {
        assert forall|i: int| o0.len() <= i < order@.len() - 1 implies has_parent(*func, order@, i) by {
            assert(order@[i] == before_push[i]);
            if has_parent(*func, before_push, i) {
                lemma_has_parent_extend(*func, before_push, order@, i);
            } else {
                let p = (order@.len() - 1) as int;
                assert(order@[p] == id);
                assert(spec_successors(*func, order@[p]).contains(order@[i]));
            }
        }
        assert forall|i: int, s: u32| 0 <= i < order@.len() && #[trigger] valid_succ(*func, order@[i], s)
            implies visited@.contains(s) by {
            if i < before_push.len() {
                assert(order@[i] == before_push[i]);
            } else {
                let j = choose|j: int| 0 <= j < succs@.len() && succs@[j] == s;
                assert(is_block_id(*func, succs@[j]));
            }
        }
    }
}

/// The depth-first postorder of the blocks reached from the entry block,
/// following successors in order; empty when the entry is no block.
pub open spec fn reachable_order(func: Function) -> Seq<u32> {
    if is_block_id(func, func.entry) {
        dfs_visit(func, (func.blocks.len() + 1) as nat, set![func.entry], Seq::empty(), func.entry).1
    } else {
        Seq::empty()
    }
}

/// Depth-first postorder of the blocks reachable from `func.entry`.
///
/// Dangling jump targets (ids with no matching block — possible when the IR is
/// malformed or only partially built) are ignored, so every id returned is a
/// real block. Downstream passes can index `func.blocks` by these ids safely.
#[must_use]
pub fn postorder(func: &Function) -> (order: Vec<u32>)
    ensures
        order@.no_duplicates(),
        forall|i: int| 0 <= i < order@.len() ==> is_block_id(*func, #[trigger] order@[i]),
        is_block_id(*func, func.entry) ==> order@.len() > 0 && order@.last() == func.entry,
        !is_block_id(*func, func.entry) ==> order@.len() == 0,
        succs_within(*func, order@, order@.to_set()),
        order@ == reachable_order(*func),
        forall|i: int| 0 <= i < order@.len() - 1 ==> has_parent(*func, order@, i),
        forall|b: u32| #[trigger] order@.contains(b) <==> reaches(*func, b),
{
    broadcast use vstd::seq_lib::group_seq_properties;
    let valid = block_id_set(func);
    let mut order: Vec<u32> = Vec::new();
    let mut visited: HashSet<u32> = HashSet::new();
    if valid.contains(&func.entry) {
        visited.insert(func.entry);
        assert(visited@.subset_of(valid@));
        assert(visited@ =~= set![func.entry]);
        assert(order@ =~= Seq::<u32>::empty());
        dfs(func, &valid, func.entry, &mut visited, &mut order, Ghost((func.blocks.len() + 1) as nat));
        proof {
            assert forall|x: u32| visited@.contains(x) implies order@.contains(x) by {}
            assert forall|i: int, s: u32| 0 <= i < order@.len() && #[trigger] valid_succ(*func, order@[i], s)
                implies order@.to_set().contains(s) by {
                assert(visited@.contains(s));
                assert(order@.contains(s));
            }
            assert forall|i: int| 0 <= i < order@.len() implies is_block_id(*func, #[trigger] order@[i]) by {
                assert(order@.contains(order@[i]));
                assert(visited@.contains(order@[i]));
                assert(block_ids(*func).contains(order@[i]));
            }
        }
    }
    proof {
        assert forall|b: u32| #[trigger] order@.contains(b) <==> reaches(*func, b) by {
            if order@.contains(b) {
                let i = choose|i: int| 0 <= i < order@.len() && order@[i] == b;
                let p = lemma_order_reached(*func, order@, i);
            }
            if reaches(*func, b) {
                let p = choose|p: Seq<u32>| #[trigger] dominance::entry_path(*func, p) && p.last() == b;
                assert(order@.contains(order@[order@.len() - 1]));
                lemma_path_within(*func, order@, p);
                assert(order@.contains(p[p.len() - 1]));
            }
        }
    }
    order
}

/// `rank` orders the blocks of the map `m` so that each block's immediate
/// dominator ranks strictly below it; `entry` alone is its own dominator, and
/// every dominator named is itself a key. So every chain of immediate
/// dominators ends at `entry`.
pub open spec fn idom_ranked(m: Map<u32, u32>, entry: u32, rank: Map<u32, nat>) -> bool {
    forall|k: u32| #[trigger] m.contains_key(k) ==> {
        &&& rank.contains_key(k)
        &&& m.contains_key(m[k])
        &&& (k == entry ==> m[k] == entry)
        &&& (k != entry ==> rank.contains_key(m[k]) && rank[m[k]] < rank[k])
    }
}

/// Each block id of `po` mapped to its index there.
fn postorder_numbers(po: &Vec<u32>) -> (po_num: HashMap<u32, usize>)
    requires
        po@.no_duplicates(),
    ensures
        forall|k: u32| #[trigger] po_num@.contains_key(k) <==> po@.contains(k),
        forall|j: int| 0 <= j < po@.len() ==> #[trigger] po_num@[po@[j]] == j,
{
    let n = po.len();
    let mut po_num: HashMap<u32, usize> = HashMap::new();
    let mut i: usize = 0;
    while i < n
        invariant
            i <= n,
            n == po.len(),
            po@.no_duplicates(),
            forall|k: u32| #[trigger] po_num@.contains_key(k) <==> exists|j: int| 0 <= j < i && po@[j] == k,
            forall|j: int| 0 <= j < i ==> #[trigger] po_num@[po@[j]] == j,
        decreases n - i,
    {
        po_num.insert(po[i], i);
        i = i + 1;
    }
    proof {
        assert forall|k: u32| #[trigger] po_num@.contains_key(k) <==> po@.contains(k) by {
            if po@.contains(k) {
                let j = choose|j: int| 0 <= j < po@.len() && po@[j] == k;
            }
        }
    }
    po_num
}

/// Immediate dominators keyed by block id. The entry block maps to itself.
/// Exactly the reachable blocks appear, each other one mapped to its
/// immediate dominator: the dominator other than itself that all its other
/// dominators dominate.
///
/// For each reachable block `d`, the blocks reached from the entry while
/// avoiding `d` are exactly those `d` does not dominate; each block's
/// immediate dominator is then picked among its dominators.
#[must_use]
#[verifier::spinoff_prover]
pub fn dominators(func: &Function) -> (result: HashMap<u32, u32>)
    ensures
        forall|k: u32| #[trigger] result@.contains_key(k) <==> reachable_order(*func).contains(k),
        forall|k: u32| #[trigger] result@.contains_key(k) ==> is_block_id(*func, k),
        is_block_id(*func, func.entry) ==> result@.contains_key(func.entry) && result@[func.entry] == func.entry,
        !is_block_id(*func, func.entry) ==> result@ == Map::<u32, u32>::empty(),
        exists|rank: Map<u32, nat>| idom_ranked(result@, func.entry, rank),
        forall|k: u32| result@.contains_key(k) && k != func.entry && (#[trigger] sole_predecessor(*func, k)) is Some
            ==> result@[k] == sole_predecessor(*func, k)->0,
        forall|k: u32| result@.contains_key(k) && k != func.entry ==> #[trigger] immediate_dominator(*func, result@[k], k),
        dominator_map(*func, result@),
{
    let po = postorder(func);
    let n = po.len();
    if n == 0 {
        let result: HashMap<u32, u32> = HashMap::new();
        assert(idom_ranked(result@, func.entry, Map::empty()));
        assert(result@ =~= Map::<u32, u32>::empty());
        return result;
    }
    let po_num = postorder_numbers(&po);
    let valid = block_id_set(func);
    // For each reachable block, the blocks reached while avoiding it.
    let mut avoid: Vec<HashSet<u32>> = Vec::new();
    let mut i: usize = 0;
    while i < n
        invariant
            i <= n,
            n == po.len(),
            valid@ == block_ids(*func),
            avoid.len() == i,
            forall|m: int, b: u32| 0 <= m < i ==> (#[trigger] avoid@[m]@.contains(b) <==> reaches_avoiding(*func, po@[m], b)),
        decreases n - i,
    {
        let a = reach_avoiding(func, &valid, po[i]);
        avoid.push(a);
        proof {
            assert forall|m: int, b: u32| 0 <= m < i + 1 implies (#[trigger] avoid@[m]@.contains(b) <==> reaches_avoiding(*func, po@[m], b)) by {
                if m == i {
                    assert(avoid@[m] == a);
                }
            }
        }
        i = i + 1;
    }
    let entry = po[n - 1];
    proof {
        assert(po@.contains(func.entry));
    }
    let mut result: HashMap<u32, u32> = HashMap::new();
    result.insert(entry, entry);
    let mut j: usize = 0;
    while j < n - 1
        invariant
            n == po.len(),
            n > 0,
            j <= n - 1,
            entry == po@[n - 1],
            entry == func.entry,
            is_block_id(*func, func.entry),
            po@.no_duplicates(),
            po@.last() == func.entry,
            forall|m: int| 0 <= m < n ==> is_block_id(*func, #[trigger] po@[m]),
            forall|m: int| 0 <= m < n - 1 ==> has_parent(*func, po@, m),
            succs_within(*func, po@, po@.to_set()),
            avoid.len() == n,
            forall|m: int, b: u32| 0 <= m < n ==> (#[trigger] avoid@[m]@.contains(b) <==> reaches_avoiding(*func, po@[m], b)),
            forall|k: u32| #[trigger] po_num@.contains_key(k) <==> po@.contains(k),
            forall|m: int| 0 <= m < po@.len() ==> #[trigger] po_num@[po@[m]] == m,
            forall|k: u32| #[trigger] result@.contains_key(k) <==> (k == entry || exists|m: int| 0 <= m < j && po@[m] == k),
            result@[entry] == entry,
            forall|m: int| 0 <= m < j ==> {
                &&& #[trigger] immediate_dominator(*func, result@[po@[m]], po@[m])
                &&& po@.contains(result@[po@[m]])
                &&& po_num@[result@[po@[m]]] > m
            },
        decreases n - 1 - j,
    {
        let b = po[j];
        let ghost pb = lemma_order_reached(*func, po@, j as int);
        proof {
            lemma_dominates_refl_entry(*func, b);
            assert(reaches(*func, b));
        }
        let mut best: usize = n - 1;
        let mut i: usize = 0;
        while i < n
            invariant
                n == po.len(),
                j < n - 1,
                b == po@[j as int],
                i <= n,
                best < n,
                best != j,
                po@.no_duplicates(),
                reaches(*func, b),
                avoid.len() == n,
                forall|m: int, c: u32| 0 <= m < n ==> (#[trigger] avoid@[m]@.contains(c) <==> reaches_avoiding(*func, po@[m], c)),
                path_dominates(*func, po@[best as int], b),
                forall|m: int| 0 <= m < i && m != j && #[trigger] path_dominates(*func, po@[m], b)
                    ==> path_dominates(*func, po@[m], po@[best as int]),
            decreases n - i,
        {
            let ghost old_best = best;
            if i != j && !avoid[i].contains(&b) && !avoid[best].contains(&po[i]) {
                best = i;
            }
            proof {
                let x = po@[i as int];
                assert forall|m: int| 0 <= m < i + 1 && m != j && #[trigger] path_dominates(*func, po@[m], b)
                    implies path_dominates(*func, po@[m], po@[best as int]) by {
                    if best != old_best {
                        if m < i {
                            lemma_dominates_trans(*func, po@[m], po@[old_best as int], x);
                        } else {
                            lemma_dominates_refl_entry(*func, x);
                        }
                    } else if m == i {
                        assert(path_dominates(*func, x, b));
                        lemma_dominators_ordered(*func, x, po@[old_best as int], b);
                    }
                }
            }
            i = i + 1;
        }
        let d = po[best];
        proof {
            assert(po@[best as int] != b);
            assert(pb.contains(d));
            let k = choose|k: int| 0 <= k < pb.len() && pb[k] == d;
            assert(k != pb.len() - 1);
            assert(listed_after(po@, j as int, pb[k]));
            let m = choose|m: int| j < m < po@.len() && po@[m] == d;
            assert(m == best);
            assert forall|x: u32| x != b && #[trigger] path_dominates(*func, x, b) implies path_dominates(*func, x, d) by {
                assert(pb.contains(x));
                let kx = choose|kx: int| 0 <= kx < pb.len() && pb[kx] == x;
                lemma_path_within(*func, po@, pb);
                assert(po@.contains(pb[kx]));
                let mx = choose|mx: int| 0 <= mx < po@.len() && po@[mx] == x;
                assert(mx != j);
            }
            assert(immediate_dominator(*func, d, b));
            assert(po@.contains(d));
        }
        let ghost before = result@;
        result.insert(b, d);
        proof {
            assert forall|m: int| 0 <= m < j + 1 implies {
                &&& #[trigger] immediate_dominator(*func, result@[po@[m]], po@[m])
                &&& po@.contains(result@[po@[m]])
                &&& po_num@[result@[po@[m]]] > m
            } by {
                if m < j {
                    assert(po@[m] != b);
                    assert(immediate_dominator(*func, before[po@[m]], po@[m]));
                    assert(result@[po@[m]] == before[po@[m]]);
                } else {
                    assert(result@[po@[m]] == d);
                    assert(po_num@[po@[best as int]] == best as int);
                }
            }
            assert(b != entry);
            assert forall|k: u32| #[trigger] result@.contains_key(k) <==> (k == entry || exists|m: int| 0 <= m < j + 1 && po@[m] == k) by {
                if k == b {
                    assert(po@[j as int] == k);
                }
            }
        }
        j = j + 1;
    }
    proof {
        assert forall|k: u32| #[trigger] result@.contains_key(k) <==> reachable_order(*func).contains(k) by {
            if k == entry {
                assert(po@[n - 1] == k);
            }
            if po@.contains(k) {
                let m = choose|m: int| 0 <= m < po@.len() && po@[m] == k;
                if m < n - 1 {
                    assert(exists|m2: int| 0 <= m2 < j && po@[m2] == k);
                }
            }
        }
        assert forall|k: u32| #[trigger] result@.contains_key(k) implies is_block_id(*func, k) by {
            let m = choose|m: int| 0 <= m < n && po@[m] == k;
        }
        let rank = Map::new(|k: u32| po_num@.contains_key(k), |k: u32| (n - 1 - po_num@[k]) as nat);
        assert forall|k: u32| #[trigger] result@.contains_key(k) implies {
            &&& rank.contains_key(k)
            &&& result@.contains_key(result@[k])
            &&& (k == func.entry ==> result@[k] == func.entry)
            &&& (k != func.entry ==> rank.contains_key(result@[k]) && rank[result@[k]] < rank[k])
        } by {
            let m = choose|m: int| 0 <= m < n && po@[m] == k;
            assert(po_num@[po@[m]] == m);
            if k != func.entry {
                assert(m != n - 1);
                let r = result@[k];
                assert(immediate_dominator(*func, result@[po@[m]], po@[m]));
                assert(po@.contains(r));
                let mr = choose|mr: int| 0 <= mr < n && po@[mr] == r;
                assert(po_num@[po@[mr]] == mr);
                assert(result@.contains_key(po@[mr]));
            } else {
                assert(po@.contains(entry));
            }
        }
        assert(idom_ranked(result@, func.entry, rank));
        assert forall|k: u32| result@.contains_key(k) && k != func.entry && (#[trigger] sole_predecessor(*func, k)) is Some
            implies result@[k] == sole_predecessor(*func, k)->0 by {
            let m = choose|m: int| 0 <= m < n && po@[m] == k;
            let pk = lemma_order_reached(*func, po@, m);
            assert(reaches(*func, k));
            lemma_sole_pred_idom(*func, k);
            assert(m != n - 1);
            assert(immediate_dominator(*func, result@[po@[m]], po@[m]));
            lemma_idom_unique(*func, result@[k], sole_predecessor(*func, k)->0, k);
        }
        assert forall|k: u32| result@.contains_key(k) && k != func.entry implies #[trigger] immediate_dominator(*func, result@[k], k) by {
            let m = choose|m: int| 0 <= m < n && po@[m] == k;
            assert(m != n - 1);
        }
    }
    result
}

/// A natural loop: its header block and the set of block ids in its body
/// (header included).
#[derive(Debug, Clone, PartialEq, Eq)]
pub struct NaturalLoop {
    pub header: u32,
    pub body: Vec<u32>,
}

/// The block reached from `b` after `k` steps up the dominator map (a block
/// without an entry, or mapped to itself, stays put).
pub open spec fn idom_walk(idom: Map<u32, u32>, b: u32, k: nat) -> u32
    decreases k,
{
    if k == 0 {
        b
    } else {
        let c = idom_walk(idom, b, (k - 1) as nat);
        if idom.contains_key(c) { idom[c] } else { c }
    }
}

/// `a` dominates `b` under the dominator map `idom`: `a` is on the chain of
/// immediate dominators from `b` (`b` itself included).
pub open spec fn dominates_in(idom: Map<u32, u32>, a: u32, b: u32) -> bool {
    exists|k: nat| idom_walk(idom, b, k) == a
}

proof fn lemma_walk_stays(idom: Map<u32, u32>, b: u32, s: nat, k: nat)
    requires
        s <= k,
        !idom.contains_key(idom_walk(idom, b, s)) || idom[idom_walk(idom, b, s)] == idom_walk(idom, b, s),
    ensures
        idom_walk(idom, b, k) == idom_walk(idom, b, s),
    decreases k,
{
    if s < k {
        lemma_walk_stays(idom, b, s, (k - 1) as nat);
    }
}

/// True iff `a` dominates `b` (walking idom chain from `b` up to entry).
fn dominates(idom: &HashMap<u32, u32>, a: u32, b: u32, Ghost(entry): Ghost<u32>) -> (r: bool)
    requires
        exists|rank: Map<u32, nat>| idom_ranked(idom@, entry, rank),
    ensures
        r == dominates_in(idom@, a, b),
{
    let ghost rank = choose|rank: Map<u32, nat>| idom_ranked(idom@, entry, rank);
    let mut cur = b;
    let ghost mut steps: nat = 0;
    loop
        invariant
            idom_ranked(idom@, entry, rank),
            cur == idom_walk(idom@, b, steps),
            forall|k: nat| k < steps ==> idom_walk(idom@, b, k) != a,
        decreases (if idom@.contains_key(cur) { rank[cur] } else { 0 }),
    {
        if cur == a {
            return true;
        }
        match idom.get(&cur) {
            Some(next) => {
                if *next != cur {
                    assert(cur != entry);
                    cur = *next;
                    proof {
                        steps = steps + 1;
                    }
                } else {
                    proof {
                        assert forall|k: nat| idom_walk(idom@, b, k) != a by {
                            if k >= steps {
                                lemma_walk_stays(idom@, b, steps, k);
                            }
                        }
                    }
                    return false;
                }
            },
            None => {
                proof {
                    assert forall|k: nat| idom_walk(idom@, b, k) != a by {
                        if k >= steps {
                            lemma_walk_stays(idom@, b, steps, k);
                        }
                    }
                }
                return false;
            },
        }
    }
}

/// The ids of `blocks`, in order, that are in `s`.
pub open spec fn ids_in(blocks: Seq<BasicBlock>, s: Set<u32>) -> Seq<u32>
    decreases blocks.len(),
{
    if blocks.len() == 0 {
        Seq::empty()
    } else {
        let prefix = ids_in(blocks.drop_last(), s);
        if s.contains(blocks.last().id) {
            prefix.push(blocks.last().id)
        } else {
            prefix
        }
    }
}

proof fn lemma_ids_in(blocks: Seq<BasicBlock>, s: Set<u32>, x: u32, i: int)
    requires
        0 <= i < blocks.len(),
        blocks[i].id == x,
        s.contains(x),
    ensures
        ids_in(blocks, s).contains(x),
    decreases blocks.len(),
{
    if i < blocks.len() - 1 {
        lemma_ids_in(blocks.drop_last(), s, x, i);
        let p = ids_in(blocks.drop_last(), s);
        let k = choose|k: int| 0 <= k < p.len() && p[k] == x;
        assert(ids_in(blocks, s)[k] == x);
    } else {
        assert(ids_in(blocks, s).last() == x);
    }
}

proof fn lemma_ids_in_are_ids(blocks: Seq<BasicBlock>, s: Set<u32>, k: int)
    requires
        0 <= k < ids_in(blocks, s).len(),
    ensures
        exists|i: int| 0 <= i < blocks.len() && blocks[i].id == ids_in(blocks, s)[k],
        s.contains(ids_in(blocks, s)[k]),
    decreases blocks.len(),
{
    if blocks.len() > 0 {
        let p = ids_in(blocks.drop_last(), s);
        if k < p.len() {
            lemma_ids_in_are_ids(blocks.drop_last(), s, k);
            let i = choose|i: int| 0 <= i < blocks.drop_last().len() && blocks.drop_last()[i].id == p[k];
            assert(blocks[i].id == ids_in(blocks, s)[k]);
        } else {
            assert(blocks[blocks.len() - 1].id == ids_in(blocks, s)[k]);
        }
    }
}

/// `dom` is what `dominators` returns for `func`: the reachable blocks, the
/// entry mapped to itself and every other block to its immediate dominator.
pub open spec fn dominator_map(func: Function, dom: Map<u32, u32>) -> bool {
    &&& forall|k: u32| #[trigger] dom.contains_key(k) <==> reachable_order(func).contains(k)
    &&& forall|k: u32| #[trigger] dom.contains_key(k) ==> is_block_id(func, k)
    &&& is_block_id(func, func.entry) ==> dom.contains_key(func.entry) && dom[func.entry] == func.entry
    &&& exists|rank: Map<u32, nat>| idom_ranked(dom, func.entry, rank)
    &&& forall|k: u32| dom.contains_key(k) && k != func.entry && (#[trigger] sole_predecessor(func, k)) is Some
        ==> dom[k] == sole_predecessor(func, k)->0
    &&& forall|k: u32| dom.contains_key(k) && k != func.entry ==> #[trigger] immediate_dominator(func, dom[k], k)
}

/// One step up the map from `b` then `k` more is `k + 1` steps from `b`.
proof fn lemma_walk_shift(idom: Map<u32, u32>, b: u32, k: nat)
    requires
        idom.contains_key(b),
    ensures
        idom_walk(idom, b, k + 1) == idom_walk(idom, idom[b], k),
    decreases k,
{
    if k > 0 {
        lemma_walk_shift(idom, b, (k - 1) as nat);
        assert(idom_walk(idom, b, k) == idom_walk(idom, idom[b], (k - 1) as nat));
        assert(idom_walk(idom, b, k + 1) == {
            let c = idom_walk(idom, b, k);
            if idom.contains_key(c) { idom[c] } else { c }
        });
    } else {
        assert(idom_walk(idom, b, 0) == b);
        assert(idom_walk(idom, b, 1) == idom[b]);
    }
}

/// Walking up a dominator map from a block stays on blocks of the map that
/// dominate it.
proof fn lemma_walk_dominates(func: Function, dom: Map<u32, u32>, b: u32, k: nat)
    requires
        dominator_map(func, dom),
        dom.contains_key(b),
    ensures
        dom.contains_key(idom_walk(dom, b, k)),
        path_dominates(func, idom_walk(dom, b, k), b),
    decreases k,
{
    let rank = choose|rank: Map<u32, nat>| idom_ranked(dom, func.entry, rank);
    if k == 0 {
        lemma_dominates_refl_entry(func, b);
    } else {
        lemma_walk_dominates(func, dom, b, (k - 1) as nat);
        let c = idom_walk(dom, b, (k - 1) as nat);
        assert(idom_ranked(dom, func.entry, rank));
        assert(dom.contains_key(dom[c]));
        if c != func.entry {
            assert(immediate_dominator(func, dom[c], c));
            lemma_dominates_trans(func, dom[c], c, b);
        }
    }
}

/// Under a dominator map of `func`, the chain of immediate dominators above
/// a reachable block holds exactly the blocks that dominate it.
pub proof fn lemma_dominates_in_iff(func: Function, dom: Map<u32, u32>, a: u32, b: u32)
    requires
        dominator_map(func, dom),
        dom.contains_key(b),
    ensures
        dominates_in(dom, a, b) <==> path_dominates(func, a, b),
    decreases (choose|rank: Map<u32, nat>| idom_ranked(dom, func.entry, rank))[b],
{
    let rank = choose|rank: Map<u32, nat>| idom_ranked(dom, func.entry, rank);
    assert(idom_ranked(dom, func.entry, rank));
    if dominates_in(dom, a, b) {
        let k = choose|k: nat| idom_walk(dom, b, k) == a;
        lemma_walk_dominates(func, dom, b, k);
    }
    if path_dominates(func, a, b) {
        if a == b {
            assert(idom_walk(dom, b, 0) == a);
        } else if b == func.entry {
            let p = seq![func.entry];
            assert forall|i: int| 0 <= i < p.len() - 1 implies #[trigger] dominance::path_step(func, p, i) by {}
            assert(dominance::entry_path(func, p));
            assert(p.contains(a));
        } else {
            assert(immediate_dominator(func, dom[b], b));
            assert(path_dominates(func, a, dom[b]));
            assert(rank[dom[b]] < rank[b]);
            lemma_dominates_in_iff(func, dom, a, dom[b]);
            let k = choose|k: nat| idom_walk(dom, dom[b], k) == a;
            lemma_walk_shift(dom, b, k);
            assert(idom_walk(dom, b, k + 1) == a);
        }
    }
}

/// Under a dominator map of `func`, `u -> v` is a back edge exactly when
/// both blocks are reachable, `v` is a successor of `u`, and every path from
/// the entry to `u` passes through `v`.
pub proof fn lemma_back_edge_iff(func: Function, dom: Map<u32, u32>, u: u32, v: u32)
    requires
        dominator_map(func, dom),
    ensures
        back_edge(func, dom, u, v) <==> {
            &&& reachable_order(func).contains(u)
            &&& reachable_order(func).contains(v)
            &&& spec_successors(func, u).contains(v)
            &&& path_dominates(func, v, u)
        },
{
    if dom.contains_key(u) {
        lemma_dominates_in_iff(func, dom, v, u);
    }
}

/// `u -> v` is a back edge: both blocks are reachable, `v` is a successor of
/// `u`, and `v` dominates `u`.
pub open spec fn back_edge(func: Function, dom: Map<u32, u32>, u: u32, v: u32) -> bool {
    &&& dom.contains_key(u)
    &&& dom.contains_key(v)
    &&& spec_successors(func, u).contains(v)
    &&& dominates_in(dom, v, u)
}

/// `s` holds the header `v`, the tail of every back edge into `v`, and every
/// reachable predecessor of each of its blocks other than `v`. A natural
/// loop's body is the least such set.
pub open spec fn loop_closure(func: Function, dom: Map<u32, u32>, v: u32, s: Set<u32>) -> bool {
    &&& s.contains(v)
    &&& forall|u: u32| #[trigger] back_edge(func, dom, u, v) ==> s.contains(u)
    &&& forall|n: u32, p: u32| #[trigger] s.contains(n) && n != v && dom.contains_key(p)
        && #[trigger] spec_successors(func, p).contains(n) ==> s.contains(p)
}

/// Walking the blocks in order and each block's successors in order, the
/// `t`-th successor of the block at position `m` is `h`, over a back edge.
pub open spec fn back_edge_at(func: Function, dom: Map<u32, u32>, h: u32, m: int, t: int) -> bool {
    &&& 0 <= m < func.blocks.len()
    &&& 0 <= t < spec_successors(func, func.blocks[m].id).len()
    &&& spec_successors(func, func.blocks[m].id)[t] == h
    &&& back_edge(func, dom, func.blocks[m].id, h)
}

/// `(m1, t1)` comes before `(m2, t2)` in that walk.
pub open spec fn walk_before(m1: int, t1: int, m2: int, t2: int) -> bool {
    m1 < m2 || (m1 == m2 && t1 < t2)
}

/// Some back edge into the header of `l` starts in its body.
pub open spec fn has_back_edge(func: Function, dom: Map<u32, u32>, l: NaturalLoop) -> bool {
    exists|u: u32| #[trigger] back_edge(func, dom, u, l.header) && l.body@.contains(u)
}

/// The loops found under the dominator map `dom`: every back edge `u -> v`
/// gives a loop with header `v` whose body holds `u`; every header has such
/// a back edge; and a body holds every reachable predecessor of each of its
/// blocks other than the header.
pub open spec fn loops_of(func: Function, dom: Map<u32, u32>, loops: Seq<NaturalLoop>) -> bool {
    &&& forall|u: u32, v: u32| #[trigger] back_edge(func, dom, u, v)
        ==> exists|i: int| 0 <= i < loops.len() && (#[trigger] loops[i]).header == v && loops[i].body@.contains(u)
    &&& forall|i: int| 0 <= i < loops.len() ==> #[trigger] has_back_edge(func, dom, loops[i])
    &&& forall|i: int, n: u32, p: u32|
        0 <= i < loops.len() && (#[trigger] loops[i]).body@.contains(n) && n != loops[i].header
            && dom.contains_key(p) && #[trigger] spec_successors(func, p).contains(n)
        ==> loops[i].body@.contains(p)
    &&& forall|i: int, s: Set<u32>, x: u32|
        0 <= i < loops.len() && #[trigger] loop_closure(func, dom, loops[i].header, s) && #[trigger] loops[i].body@.contains(x)
        ==> s.contains(x)
    &&& exists|first: Seq<(int, int)>| #[trigger] walk_order(func, dom, loop_headers(loops), first)
}

/// Every reachable predecessor `p` of a block `n` of `body` other than
/// `header` is in `body`, as far as `edges` lists the pairs `(p, n)`.
spec fn closed_under(body: Set<u32>, header: u32, edges: Seq<(u32, u32)>) -> bool {
    forall|n: u32, p: u32| #[trigger] body.contains(n) && n != header && #[trigger] edges.contains((p, n)) ==> body.contains(p)
}

/// The headers and bodies gathered so far: distinct reachable headers, each
/// in its own body, bodies of reachable blocks closed under predecessors,
/// and each header with a back edge from its body.
#[verifier::opaque]
spec fn gathered(func: Function, dom: Map<u32, u32>, edges: Seq<(u32, u32)>, headers: Seq<u32>, bodies: Seq<Set<u32>>) -> bool {
    &&& headers.len() == bodies.len()
    &&& headers.no_duplicates()
    &&& forall|h: int| 0 <= h < headers.len() ==> {
        &&& is_block_id(func, #[trigger] headers[h])
        &&& dom.contains_key(headers[h])
        &&& bodies[h].contains(headers[h])
        &&& bodies[h].subset_of(dom.dom())
        &&& closed_under(bodies[h], headers[h], edges)
        &&& exists|a: u32| #[trigger] back_edge(func, dom, a, headers[h]) && bodies[h].contains(a)
        &&& forall|s: Set<u32>| #[trigger] loop_closure(func, dom, headers[h], s) ==> bodies[h].subset_of(s)
    }
}

/// The back edges from a block at a position below `ui`, or from `u` to
/// one of `succs[..k]`, are covered by the bodies gathered so far.
#[verifier::opaque]
spec fn covered(
    func: Function,
    dom: Map<u32, u32>,
    headers: Seq<u32>,
    bodies: Seq<Set<u32>>,
    ui: int,
    u: u32,
    succs: Seq<u32>,
    k: int,
) -> bool {
    forall|a: u32, b: u32| #[trigger] back_edge(func, dom, a, b)
        && ((exists|m: int| 0 <= m < ui && #[trigger] func.blocks[m].id == a) || (a == u && succs.take(k).contains(b)))
        ==> exists|h: int| 0 <= h < headers.len() && headers[h] == b && #[trigger] bodies[h].contains(a)
}

/// The edges `(p, s)` between reachable blocks.
fn reachable_pairs(func: &Function, idom: &HashMap<u32, u32>) -> (edges: Vec<(u32, u32)>)
    requires
        forall|k: u32| #[trigger] idom@.contains_key(k) ==> is_block_id(*func, k),
    ensures
        forall|j: int| 0 <= j < edges.len() ==> {
            &&& idom@.contains_key((#[trigger] edges@[j]).0)
            &&& idom@.contains_key(edges@[j].1)
            &&& spec_successors(*func, edges@[j].0).contains(edges@[j].1)
        },
        forall|p: u32, s: u32| #![trigger spec_successors(*func, p).contains(s)]
            idom@.contains_key(p) && idom@.contains_key(s) && spec_successors(*func, p).contains(s) ==> edges@.contains((p, s)),
{
    let mut edges: Vec<(u32, u32)> = Vec::new();
    let mut bi: usize = 0;
    while bi < func.blocks.len()
        invariant
            bi <= func.blocks.len(),
            forall|k: u32| #[trigger] idom@.contains_key(k) ==> is_block_id(*func, k),
            forall|j: int| 0 <= j < edges.len() ==> {
                &&& idom@.contains_key((#[trigger] edges@[j]).0)
                &&& idom@.contains_key(edges@[j].1)
                &&& spec_successors(*func, edges@[j].0).contains(edges@[j].1)
            },
            forall|p: u32, s: u32| #![trigger spec_successors(*func, p).contains(s)]
                (exists|m: int| 0 <= m < bi && #[trigger] func.blocks[m].id == p) && idom@.contains_key(p)
                && idom@.contains_key(s) && spec_successors(*func, p).contains(s) ==> edges@.contains((p, s)),
        decreases func.blocks.len() - bi,
    {
        let b = func.blocks[bi].id;
        let ghost e_before = edges@;
        if idom.contains_key(&b) {
            let succs = successors(func, b);
            let mut k: usize = 0;
            while k < succs.len()
                invariant
                    k <= succs.len(),
                    succs@ == spec_successors(*func, b),
                    idom@.contains_key(b),
                    forall|j: int| 0 <= j < edges.len() ==> {
                        &&& idom@.contains_key((#[trigger] edges@[j]).0)
                        &&& idom@.contains_key(edges@[j].1)
                        &&& spec_successors(*func, edges@[j].0).contains(edges@[j].1)
                    },
                    forall|x: (u32, u32)| e_before.contains(x) ==> edges@.contains(x),
                    forall|t: int| 0 <= t < k && idom@.contains_key(#[trigger] succs@[t]) ==> edges@.contains((b, succs@[t])),
                decreases succs.len() - k,
            {
                let ghost e0 = edges@;
                if idom.contains_key(&succs[k]) {
                    edges.push((b, succs[k]));
                    proof {
                        assert(edges@[e0.len() as int] == (b, succs@[k as int]));
                        assert(succs@.contains(succs@[k as int]));
                    }
                }
                proof {
                    assert forall|x: (u32, u32)| e0.contains(x) implies edges@.contains(x) by {
                        let w = choose|w: int| 0 <= w < e0.len() && e0[w] == x;
                        assert(edges@[w] == x);
                    }
                }
                k = k + 1;
            }
            proof {
                assert forall|s: u32| idom@.contains_key(s) && spec_successors(*func, b).contains(s) implies edges@.contains((b, s)) by {
                    let t = choose|t: int| 0 <= t < succs@.len() && succs@[t] == s;
                }
            }
        }
        proof {
            assert forall|p: u32, s: u32| #![trigger spec_successors(*func, p).contains(s)]
                (exists|m: int| 0 <= m < bi + 1 && #[trigger] func.blocks[m].id == p) && idom@.contains_key(p)
                && idom@.contains_key(s) && spec_successors(*func, p).contains(s) implies edges@.contains((p, s)) by {
                let m = choose|m: int| 0 <= m < bi + 1 && #[trigger] func.blocks[m].id == p;
                if m < bi {
                    assert(e_before.contains((p, s)));
                }
            }
        }
        bi = bi + 1;
    }
    proof {
        assert forall|p: u32, s: u32| #![trigger spec_successors(*func, p).contains(s)]
            idom@.contains_key(p) && idom@.contains_key(s) && spec_successors(*func, p).contains(s) implies edges@.contains((p, s)) by {
            assert(is_block_id(*func, p));
            let m = choose|m: int| 0 <= m < func.blocks.len() && func.blocks[m].id == p;
            assert(func.blocks[m].id == p);
        }
    }
    edges
}

/// Grow `body` (which holds `v`) by the reverse walk from `u`: add `u` and,
/// for each block added, its predecessors, never walking past `v`.
fn fill_body(edges: &Vec<(u32, u32)>, body: HashSet<u32>, v: u32, u: u32, Ghost(func): Ghost<Function>, Ghost(dom): Ghost<Map<u32, u32>>) -> (out: HashSet<u32>)
    requires
        body@.contains(v),
        body@.subset_of(dom.dom()),
        closed_under(body@, v, edges@),
        dom.contains_key(u),
        forall|k: u32| #[trigger] dom.contains_key(k) ==> is_block_id(func, k),
        forall|j: int| 0 <= j < edges.len() ==> dom.contains_key((#[trigger] edges@[j]).0),
        forall|j: int| 0 <= j < edges.len() ==> spec_successors(func, (#[trigger] edges@[j]).0).contains(edges@[j].1),
        block_ids(func).finite(),
        back_edge(func, dom, u, v),
        forall|s: Set<u32>| #[trigger] loop_closure(func, dom, v, s) ==> body@.subset_of(s),
    ensures
        body@.subset_of(out@),
        out@.subset_of(dom.dom()),
        out@.contains(u),
        closed_under(out@, v, edges@),
        forall|s: Set<u32>| #[trigger] loop_closure(func, dom, v, s) ==> out@.subset_of(s),
{
    let mut body = body;
    let ghost old_body = body@;
    let mut stack: Vec<u32> = Vec::new();
    stack.push(u);
    proof {
        assert(stack@[0] == u);
        assert forall|x: u32| dom.contains_key(x) implies block_ids(func).contains(x) by {}
        assert forall|s: Set<u32>| #[trigger] loop_closure(func, dom, v, s) implies body@.subset_of(s)
            && (forall|j: int| 0 <= j < stack.len() ==> s.contains(#[trigger] stack@[j])) by {
            assert(s.contains(u));
        }
    }
    while stack.len() > 0
        invariant
            body@.subset_of(dom.dom()),
            body@.contains(v),
            old_body.subset_of(body@),
            dom.dom().subset_of(block_ids(func)),
            block_ids(func).finite(),
            forall|j: int| 0 <= j < stack.len() ==> dom.contains_key(#[trigger] stack@[j]),
            forall|j: int| 0 <= j < edges.len() ==> dom.contains_key((#[trigger] edges@[j]).0),
            forall|n: u32, p: u32| #[trigger] body@.contains(n) && n != v && #[trigger] edges@.contains((p, n))
                ==> body@.contains(p) || stack@.contains(p),
            body@.contains(u) || stack@.contains(u),
            forall|j: int| 0 <= j < edges.len() ==> spec_successors(func, (#[trigger] edges@[j]).0).contains(edges@[j].1),
            forall|s: Set<u32>| #[trigger] loop_closure(func, dom, v, s) ==> body@.subset_of(s)
                && (forall|j: int| 0 <= j < stack.len() ==> s.contains(#[trigger] stack@[j])),
        decreases block_ids(func).len() - body@.len(), stack.len(),
    {
        let ghost st0 = stack@;
        let n = stack.pop().unwrap();
        proof {
            vstd::set_lib::lemma_len_subset(body@, block_ids(func));
            assert(st0 =~= stack@.push(n));
            assert forall|x: u32| st0.contains(x) && x != n implies stack@.contains(x) by {
                let w = choose|w: int| 0 <= w < st0.len() && st0[w] == x;
                assert(w < stack@.len());
                assert(stack@[w] == x);
            }
            assert(dom.contains_key(st0[st0.len() - 1]));
            assert forall|s: Set<u32>| #[trigger] loop_closure(func, dom, v, s) implies s.contains(n)
                && (forall|j: int| 0 <= j < stack.len() ==> s.contains(#[trigger] stack@[j])) by {
                assert(s.contains(st0[st0.len() - 1]));
                assert forall|j: int| 0 <= j < stack.len() implies s.contains(#[trigger] stack@[j]) by {
                    assert(st0[j] == stack@[j]);
                }
            }
        }
        let ghost body_before = body@;
        if body.insert(n) {
            proof {
                vstd::set_lib::lemma_len_subset(body@, block_ids(func));
                assert(!body_before.contains(n));
                assert(n != v);
            }
            let ghost st1 = stack@;
            let mut e: usize = 0;
            while e < edges.len()
                invariant
                    e <= edges.len(),
                    forall|j: int| 0 <= j < stack.len() ==> dom.contains_key(#[trigger] stack@[j]),
                    forall|j: int| 0 <= j < edges.len() ==> dom.contains_key((#[trigger] edges@[j]).0),
                    forall|x: u32| st1.contains(x) ==> stack@.contains(x),
                    forall|j: int| 0 <= j < e && (#[trigger] edges@[j]).1 == n ==> stack@.contains(edges@[j].0),
                    forall|j: int| 0 <= j < edges.len() ==> spec_successors(func, (#[trigger] edges@[j]).0).contains(edges@[j].1),
                    n != v,
                    forall|s: Set<u32>| #[trigger] loop_closure(func, dom, v, s) ==> s.contains(n)
                        && (forall|j: int| 0 <= j < stack.len() ==> s.contains(#[trigger] stack@[j])),
                decreases edges.len() - e,
            {
                let (p, s) = edges[e];
                let ghost sb = stack@;
                if s == n {
                    stack.push(p);
                    proof {
                        assert(stack@[sb.len() as int] == p);
                        assert(spec_successors(func, p).contains(n));
                        assert(dom.contains_key(p));
                        assert forall|s2: Set<u32>| #[trigger] loop_closure(func, dom, v, s2) implies s2.contains(n)
                            && (forall|j: int| 0 <= j < stack.len() ==> s2.contains(#[trigger] stack@[j])) by {
                            assert(s2.contains(p));
                            assert forall|j: int| 0 <= j < stack.len() implies s2.contains(#[trigger] stack@[j]) by {
                                if j < sb.len() {
                                    assert(stack@[j] == sb[j]);
                                }
                            }
                        }
                    }
                }
                proof {
                    assert forall|x: u32| sb.contains(x) implies stack@.contains(x) by {
                        let w = choose|w: int| 0 <= w < sb.len() && sb[w] == x;
                        assert(stack@[w] == x);
                    }
                }
                e = e + 1;
            }
            proof {
                assert forall|q: u32| #[trigger] edges@.contains((q, n)) implies stack@.contains(q) by {
                    let j = choose|j: int| 0 <= j < edges@.len() && edges@[j] == (q, n);
                }
            }
        }
    }
    body
}

proof fn lemma_gathered_step(
    func: Function,
    dom: Map<u32, u32>,
    edges: Seq<(u32, u32)>,
    headers: Seq<u32>,
    bodies: Seq<Set<u32>>,
    hi: int,
    body: Set<u32>,
    u: u32,
    v: u32,
    ui: int,
    succs: Seq<u32>,
    k: int,
)
    requires
        gathered(func, dom, edges, headers, bodies),
        covered(func, dom, headers, bodies, ui, u, succs, k),
        0 <= k < succs.len(),
        succs[k] == v,
        0 <= ui < func.blocks.len(),
        func.blocks[ui].id == u,
        back_edge(func, dom, u, v),
        0 <= hi <= headers.len(),
        hi < headers.len() ==> headers[hi] == v && bodies[hi].subset_of(body),
        hi == headers.len() ==> !headers.contains(v),
        body.contains(v),
        body.contains(u),
        body.subset_of(dom.dom()),
        closed_under(body, v, edges),
        is_block_id(func, v),
        forall|s: Set<u32>| #[trigger] loop_closure(func, dom, v, s) ==> body.subset_of(s),
    ensures
        hi < headers.len() ==> gathered(func, dom, edges, headers, bodies.update(hi, body))
            && covered(func, dom, headers, bodies.update(hi, body), ui, u, succs, k + 1),
        hi == headers.len() ==> gathered(func, dom, edges, headers.push(v), bodies.push(body))
            && covered(func, dom, headers.push(v), bodies.push(body), ui, u, succs, k + 1),
{
    reveal(gathered);
    reveal(covered);
    let nh = if hi < headers.len() { headers } else { headers.push(v) };
    let nb = if hi < headers.len() { bodies.update(hi, body) } else { bodies.push(body) };
    assert(nh[hi] == v && nb[hi] == body);
    assert forall|h: int| 0 <= h < headers.len() && h != hi implies nh[h] == headers[h] && nb[h] == bodies[h] by {}
    assert forall|h: int| 0 <= h < nh.len() implies {
        &&& is_block_id(func, #[trigger] nh[h])
        &&& dom.contains_key(nh[h])
        &&& nb[h].contains(nh[h])
        &&& nb[h].subset_of(dom.dom())
        &&& closed_under(nb[h], nh[h], edges)
        &&& exists|a: u32| #[trigger] back_edge(func, dom, a, nh[h]) && nb[h].contains(a)
        &&& forall|s: Set<u32>| #[trigger] loop_closure(func, dom, nh[h], s) ==> nb[h].subset_of(s)
    } by {
        if h == hi {
            assert(back_edge(func, dom, u, nh[h]) && nb[h].contains(u));
        } else {
            assert(nh[h] == headers[h]);
        }
    }
    assert(nh.no_duplicates()) by {
        if hi == headers.len() {
            assert forall|a: int, b: int| 0 <= a < b < nh.len() implies nh[a] != nh[b] by {
                if b == hi {
                    assert(headers.contains(nh[a]));
                }
            }
        }
    }
    assert forall|a: u32, b: u32| #[trigger] back_edge(func, dom, a, b)
        && ((exists|m: int| 0 <= m < ui && #[trigger] func.blocks[m].id == a) || (a == u && succs.take(k + 1).contains(b)))
        implies exists|h: int| 0 <= h < nh.len() && nh[h] == b && #[trigger] nb[h].contains(a) by {
        if a == u && b == v {
            assert(nb[hi].contains(a));
        } else {
            if a == u && succs.take(k + 1).contains(b) && !(exists|m: int| 0 <= m < ui && #[trigger] func.blocks[m].id == a) {
                let t = choose|t: int| 0 <= t < k + 1 && #[trigger] succs.take(k + 1)[t] == b;
                assert(t != k);
                assert(succs.take(k)[t] == b);
            }
            let h = choose|h: int| 0 <= h < headers.len() && headers[h] == b && #[trigger] bodies[h].contains(a);
            if h == hi {
                assert(nb[h].contains(a));
            } else {
                assert(nb[h] == bodies[h]);
            }
        }
    }
}

proof fn lemma_covered_start(func: Function, dom: Map<u32, u32>, headers: Seq<u32>, bodies: Seq<Set<u32>>, ui: int, u: u32, succs: Seq<u32>)
    requires
        covered(func, dom, headers, bodies, ui, 0, Seq::empty(), 0),
    ensures
        covered(func, dom, headers, bodies, ui, u, succs, 0),
{
    reveal(covered);
    assert forall|a: u32, b: u32| #[trigger] back_edge(func, dom, a, b)
        && ((exists|m: int| 0 <= m < ui && #[trigger] func.blocks[m].id == a) || (a == u && succs.take(0).contains(b)))
        implies exists|h: int| 0 <= h < headers.len() && headers[h] == b && #[trigger] bodies[h].contains(a) by {
        if a == u && succs.take(0).contains(b) {
            assert(succs.take(0).len() == 0);
        }
    }
}

proof fn lemma_covered_skip(func: Function, dom: Map<u32, u32>, headers: Seq<u32>, bodies: Seq<Set<u32>>, ui: int, u: u32, succs: Seq<u32>, k: int)
    requires
        covered(func, dom, headers, bodies, ui, u, succs, k),
        0 <= k < succs.len(),
        !back_edge(func, dom, u, succs[k]),
    ensures
        covered(func, dom, headers, bodies, ui, u, succs, k + 1),
{
    reveal(covered);
    assert forall|a: u32, b: u32| #[trigger] back_edge(func, dom, a, b)
        && ((exists|m: int| 0 <= m < ui && #[trigger] func.blocks[m].id == a) || (a == u && succs.take(k + 1).contains(b)))
        implies exists|h: int| 0 <= h < headers.len() && headers[h] == b && #[trigger] bodies[h].contains(a) by {
        if a == u && succs.take(k + 1).contains(b) && !(exists|m: int| 0 <= m < ui && #[trigger] func.blocks[m].id == a) {
            let t = choose|t: int| 0 <= t < k + 1 && #[trigger] succs.take(k + 1)[t] == b;
            assert(t != k);
            assert(succs.take(k)[t] == b);
        }
    }
}

proof fn lemma_covered_next(func: Function, dom: Map<u32, u32>, headers: Seq<u32>, bodies: Seq<Set<u32>>, ui: int, u: u32, succs: Seq<u32>)
    requires
        covered(func, dom, headers, bodies, ui, u, succs, succs.len() as int),
        0 <= ui < func.blocks.len(),
        func.blocks[ui].id == u,
        dom.contains_key(u) ==> succs == spec_successors(func, u),
    ensures
        covered(func, dom, headers, bodies, ui + 1, 0, Seq::empty(), 0),
{
    reveal(covered);
    assert forall|a: u32, b: u32| #[trigger] back_edge(func, dom, a, b)
        && ((exists|m: int| 0 <= m < ui + 1 && #[trigger] func.blocks[m].id == a) || (a == 0 && Seq::<u32>::empty().take(0).contains(b)))
        implies exists|h: int| 0 <= h < headers.len() && headers[h] == b && #[trigger] bodies[h].contains(a) by {
        if !(exists|m: int| 0 <= m < ui && #[trigger] func.blocks[m].id == a) {
            if a == 0 && Seq::<u32>::empty().take(0).contains(b) {
                assert(false);
            }
            let m = choose|m: int| 0 <= m < ui + 1 && #[trigger] func.blocks[m].id == a;
            assert(m == ui);
            assert(succs.take(succs.len() as int) =~= succs);
        }
    }
}

/// The headers of `loops`, in order.
pub open spec fn loop_headers(loops: Seq<NaturalLoop>) -> Seq<u32> {
    loops.map_values(|l: NaturalLoop| l.header)
}

/// `first[i]` is a place in the walk where a back edge into `headers[i]`
/// is met, and every back edge into a later header is met after it: the
/// headers come in the order the walk first meets them.
pub open spec fn walk_order(func: Function, dom: Map<u32, u32>, headers: Seq<u32>, first: Seq<(int, int)>) -> bool {
    &&& first.len() == headers.len()
    &&& forall|i: int| 0 <= i < headers.len() ==> back_edge_at(func, dom, headers[i], (#[trigger] first[i]).0, first[i].1)
    &&& forall|i: int, j: int, m2: int, t2: int|
        #![trigger first[i], back_edge_at(func, dom, headers[j], m2, t2)]
        0 <= i < j < headers.len() && back_edge_at(func, dom, headers[j], m2, t2)
        ==> walk_before(first[i].0, first[i].1, m2, t2)
}

/// `walk_order` for the headers gathered before `(ui, k)` in the walk.
spec fn in_order(func: Function, dom: Map<u32, u32>, headers: Seq<u32>, first: Seq<(int, int)>, ui: int, k: int) -> bool {
    &&& walk_order(func, dom, headers, first)
    &&& forall|i: int| 0 <= i < headers.len() ==> walk_before((#[trigger] first[i]).0, first[i].1, ui, k)
}

proof fn lemma_in_order_push(
    func: Function,
    dom: Map<u32, u32>,
    headers: Seq<u32>,
    first: Seq<(int, int)>,
    bodies: Seq<Set<u32>>,
    ui: int,
    u: u32,
    succs: Seq<u32>,
    k: int,
)
    requires
        in_order(func, dom, headers, first, ui, k),
        covered(func, dom, headers, bodies, ui, u, succs, k),
        0 <= ui < func.blocks.len(),
        func.blocks[ui].id == u,
        succs == spec_successors(func, u),
        0 <= k < succs.len(),
        back_edge(func, dom, u, succs[k]),
        !headers.contains(succs[k]),
    ensures
        in_order(func, dom, headers.push(succs[k]), first.push((ui, k)), ui, k + 1),
{
    reveal(covered);
    let v = succs[k];
    let nh = headers.push(v);
    let nf = first.push((ui, k));
    assert(back_edge_at(func, dom, v, ui, k));
    assert forall|m2: int, t2: int| #[trigger] back_edge_at(func, dom, v, m2, t2) implies !walk_before(m2, t2, ui, k) by {
        if walk_before(m2, t2, ui, k) {
            let a = func.blocks[m2].id;
            if m2 < ui {
                assert(exists|m: int| 0 <= m < ui && #[trigger] func.blocks[m].id == a);
            } else {
                assert(succs.take(k)[t2] == v);
                assert(succs.take(k).contains(v));
            }
            let h = choose|h: int| 0 <= h < headers.len() && headers[h] == v && #[trigger] bodies[h].contains(a);
            assert(headers.contains(v));
        }
    }
    assert forall|i: int| 0 <= i < nh.len() implies back_edge_at(func, dom, nh[i], (#[trigger] nf[i]).0, nf[i].1) by {
        if i < headers.len() {
            assert(nf[i] == first[i]);
            assert(back_edge_at(func, dom, headers[i], first[i].0, first[i].1));
        }
    }
    assert forall|i: int, j: int, m2: int, t2: int|
        #![trigger nf[i], back_edge_at(func, dom, nh[j], m2, t2)]
        0 <= i < j < nh.len() && back_edge_at(func, dom, nh[j], m2, t2)
        implies walk_before(nf[i].0, nf[i].1, m2, t2) by {
        assert(nf[i] == first[i]);
        assert(walk_before(first[i].0, first[i].1, ui, k));
        if j < headers.len() {
            assert(nh[j] == headers[j]);
            assert(back_edge_at(func, dom, headers[j], m2, t2));
        } else {
            assert(!walk_before(m2, t2, ui, k));
        }
    }
    assert forall|i: int| 0 <= i < nh.len() implies walk_before((#[trigger] nf[i]).0, nf[i].1, ui, k + 1) by {
        if i < headers.len() {
            assert(nf[i] == first[i]);
        }
    }
}

/// `u -> v` is an edge between reachable blocks and every path from the
/// entry to `u` passes through `v`.
pub open spec fn dominating_back_edge(func: Function, u: u32, v: u32) -> bool {
    &&& reachable_order(func).contains(u)
    &&& reachable_order(func).contains(v)
    &&& spec_successors(func, u).contains(v)
    &&& path_dominates(func, v, u)
}

/// The body of `l` holds a block with an edge into the header that the
/// header dominates.
pub open spec fn dominated_by_header(func: Function, l: NaturalLoop) -> bool {
    exists|u: u32| #[trigger] dominating_back_edge(func, u, l.header) && l.body@.contains(u)
}

/// Loops found under a dominator map of `func` are those of its back edges
/// `u -> v` where `v` dominates `u`: each such edge has a loop with header
/// `v` whose body holds `u`, and each loop's header has such an edge from
/// its body.
pub proof fn lemma_loops_dominating_back_edges(func: Function, dom: Map<u32, u32>, loops: Seq<NaturalLoop>)
    requires
        dominator_map(func, dom),
        loops_of(func, dom, loops),
    ensures
        forall|u: u32, v: u32| #[trigger] dominating_back_edge(func, u, v)
            ==> exists|i: int| 0 <= i < loops.len() && (#[trigger] loops[i]).header == v && loops[i].body@.contains(u),
        forall|i: int| 0 <= i < loops.len() ==> #[trigger] dominated_by_header(func, loops[i]),
{
    assert forall|u: u32, v: u32| #[trigger] dominating_back_edge(func, u, v)
        implies exists|i: int| 0 <= i < loops.len() && (#[trigger] loops[i]).header == v && loops[i].body@.contains(u) by {
        lemma_back_edge_iff(func, dom, u, v);
        assert(back_edge(func, dom, u, v));
    }
    assert forall|i: int| 0 <= i < loops.len() implies #[trigger] dominated_by_header(func, loops[i]) by {
        assert(has_back_edge(func, dom, loops[i]));
        let u = choose|u: u32| #[trigger] back_edge(func, dom, u, loops[i].header) && loops[i].body@.contains(u);
        lemma_back_edge_iff(func, dom, u, loops[i].header);
        assert(dominating_back_edge(func, u, loops[i].header));
        assert(loops[i].body@.contains(u));
    }
}

/// What `natural_loops` returns for `func`: loops of reachable blocks, one
/// per header, found from the back edges of a dominator map of `func`: one
/// loop for each header `v` of an edge `u -> v` where `v` dominates `u`,
/// holding `u`.
pub open spec fn natural_loops_of(func: Function, loops: Seq<NaturalLoop>) -> bool {
    &&& forall|i: int| 0 <= i < loops.len() ==> {
        &&& is_block_id(func, (#[trigger] loops[i]).header)
        &&& loops[i].body@.contains(loops[i].header)
        &&& exists|s: Set<u32>| loops[i].body@ == ids_in(func.blocks@, s)
        &&& forall|j: int| 0 <= j < loops[i].body.len() ==> is_block_id(func, #[trigger] loops[i].body@[j])
        &&& reachable_order(func).contains(loops[i].header)
        &&& forall|j: int| 0 <= j < loops[i].body.len() ==> reachable_order(func).contains(#[trigger] loops[i].body@[j])
    }
    &&& forall|i: int, j: int| 0 <= i < j < loops.len() ==> (#[trigger] loops[i]).header != (#[trigger] loops[j]).header
    &&& exists|dom: Map<u32, u32>| dominator_map(func, dom) && loops_of(func, dom, loops)
    &&& forall|u: u32, v: u32| #[trigger] dominating_back_edge(func, u, v)
        ==> exists|i: int| 0 <= i < loops.len() && (#[trigger] loops[i]).header == v && loops[i].body@.contains(u)
    &&& forall|i: int| 0 <= i < loops.len() ==> #[trigger] dominated_by_header(func, loops[i])
}

/// Natural loops discovered from back edges (`u -> v` where `v` dominates
/// `u`). Bodies are computed by the classic reverse-reachability walk from the
/// back-edge tail, stopping at the header.
#[must_use]
pub fn natural_loops(func: &Function) -> (loops: Vec<NaturalLoop>)
    ensures
        forall|i: int| 0 <= i < loops.len() ==> {
            &&& is_block_id(*func, (#[trigger] loops[i]).header)
            &&& loops[i].body@.contains(loops[i].header)
            &&& exists|s: Set<u32>| loops[i].body@ == ids_in(func.blocks@, s)
            &&& forall|j: int| 0 <= j < loops[i].body.len() ==> is_block_id(*func, #[trigger] loops[i].body@[j])
            &&& reachable_order(*func).contains(loops[i].header)
            &&& forall|j: int| 0 <= j < loops[i].body.len() ==> reachable_order(*func).contains(#[trigger] loops[i].body@[j])
        },
        forall|i: int, j: int| 0 <= i < j < loops.len() ==> (#[trigger] loops[i]).header != (#[trigger] loops[j]).header,
        exists|dom: Map<u32, u32>| dominator_map(*func, dom) && loops_of(*func, dom, loops@),
        natural_loops_of(*func, loops@),
{
    let idom = dominators(func);
    proof {
        lemma_block_ids(*func);
    }
    let ghost dom = idom@;
    // Edges between reachable blocks as (pred, succ).
    let edges = reachable_pairs(func, &idom);
    // Back-edges that share a header describe the same natural loop; merge
    // their bodies so each header yields exactly one loop.
    let mut headers: Vec<u32> = Vec::new();
    let mut bodies: Vec<HashSet<u32>> = Vec::new();
    proof {
        reveal(gathered);
        reveal(covered);
        assert(bodies@.map_values(|b: HashSet<u32>| b@) =~= Seq::<Set<u32>>::empty());
    }
    let ghost mut first: Seq<(int, int)> = Seq::empty();
    let mut ui: usize = 0;
    while ui < func.blocks.len()
        invariant
            ui <= func.blocks.len(),
            dom == idom@,
            headers.len() == bodies.len(),
            block_ids(*func).finite(),
            exists|rank: Map<u32, nat>| idom_ranked(idom@, func.entry, rank),
            forall|k: u32| #[trigger] idom@.contains_key(k) ==> is_block_id(*func, k),
            forall|j: int| 0 <= j < edges.len() ==> idom@.contains_key((#[trigger] edges@[j]).0),
            forall|j: int| 0 <= j < edges.len() ==> spec_successors(*func, (#[trigger] edges@[j]).0).contains(edges@[j].1),
            gathered(*func, dom, edges@, headers@, bodies@.map_values(|b: HashSet<u32>| b@)),
            covered(*func, dom, headers@, bodies@.map_values(|b: HashSet<u32>| b@), ui as int, 0, Seq::empty(), 0),
            in_order(*func, dom, headers@, first, ui as int, 0),
        decreases func.blocks.len() - ui,
    {
        let u = func.blocks[ui].id;
        let ghost succs_seen: Seq<u32> = Seq::empty();
        if idom.contains_key(&u) {
            let succs = successors(func, u);
            proof {
                lemma_covered_start(*func, dom, headers@, bodies@.map_values(|b: HashSet<u32>| b@), ui as int, u, succs@);
            }
            let mut k: usize = 0;
            while k < succs.len()
                invariant
                    k <= succs.len(),
                    ui < func.blocks.len(),
                    u == func.blocks[ui as int].id,
                    succs@ == spec_successors(*func, u),
                    dom == idom@,
                    idom@.contains_key(u),
                    headers.len() == bodies.len(),
                    block_ids(*func).finite(),
                    exists|rank: Map<u32, nat>| idom_ranked(idom@, func.entry, rank),
                    forall|k: u32| #[trigger] idom@.contains_key(k) ==> is_block_id(*func, k),
                    forall|j: int| 0 <= j < edges.len() ==> idom@.contains_key((#[trigger] edges@[j]).0),
                    forall|j: int| 0 <= j < edges.len() ==> spec_successors(*func, (#[trigger] edges@[j]).0).contains(edges@[j].1),
                    gathered(*func, dom, edges@, headers@, bodies@.map_values(|b: HashSet<u32>| b@)),
                    covered(*func, dom, headers@, bodies@.map_values(|b: HashSet<u32>| b@), ui as int, u, succs@, k as int),
                    in_order(*func, dom, headers@, first, ui as int, k as int),
                decreases succs.len() - k,
            {
                let v = succs[k];
                let ghost bv = bodies@.map_values(|b: HashSet<u32>| b@);
                // Back edge: header v dominates tail u.
                if idom.contains_key(&v) && dominates(&idom, v, u, Ghost(func.entry)) {
                    proof {
                        assert(succs@.contains(v));
                        assert(back_edge(*func, dom, u, v));
                    }
                    let mut hi: usize = 0;
                    while hi < headers.len() && headers[hi] != v
                        invariant
                            hi <= headers.len(),
                            forall|h: int| 0 <= h < hi ==> headers@[h] != v,
                        decreases headers.len() - hi,
                    {
                        hi = hi + 1;
                    }
                    let ghost saved = bodies@;
                    let ghost saved_headers = headers@;
                    let mut body: HashSet<u32>;
                    if hi < headers.len() {
                        body = bodies.remove(hi);
                        proof {
                            reveal(gathered);
                            assert(bv[hi as int] == body@);
                        }
                    } else {
                        proof {
                            assert(!headers@.contains(v));
                        }
                        body = HashSet::new();
                    }
                    let ghost start_body = body@;
                    body.insert(v);
                    proof {
                        reveal(gathered);
                        if hi < saved_headers.len() {
                            assert(closed_under(bv[hi as int], v, edges@));
                            assert(body@ == start_body);
                        }
                        assert forall|s: Set<u32>| #[trigger] loop_closure(*func, dom, v, s) implies body@.subset_of(s) by {
                            if hi < saved_headers.len() {
                                assert(saved_headers[hi as int] == v);
                                assert(bv[hi as int].subset_of(s));
                            }
                        }
                    }
                    let body = fill_body(&edges, body, v, u, Ghost(*func), Ghost(dom));
                    if hi < headers.len() {
                        bodies.insert(hi, body);
                    } else {
                        headers.push(v);
                        bodies.push(body);
                    }
                    proof {
                        assert(is_block_id(*func, v));
                        lemma_gathered_step(*func, dom, edges@, saved_headers, bv, hi as int, body@, u, v, ui as int, succs@, k as int);
                        if hi < saved_headers.len() {
                            assert(in_order(*func, dom, headers@, first, ui as int, k + 1));
                        } else {
                            lemma_in_order_push(*func, dom, saved_headers, first, bv, ui as int, u, succs@, k as int);
                            first = first.push((ui as int, k as int));
                        }
                        if hi < saved_headers.len() {
                            assert(bodies@ =~= saved.update(hi as int, body));
                            assert(bodies@.map_values(|b: HashSet<u32>| b@) =~= bv.update(hi as int, body@));
                        } else {
                            assert(bodies@ =~= saved.push(body));
                            assert(bodies@.map_values(|b: HashSet<u32>| b@) =~= bv.push(body@));
                        }
                    }
                } else {
                    proof {
                        assert(!back_edge(*func, dom, u, v));
                        lemma_covered_skip(*func, dom, headers@, bv, ui as int, u, succs@, k as int);
                        assert(in_order(*func, dom, headers@, first, ui as int, k + 1));
                    }
                }
                k = k + 1;
            }
            proof {
                lemma_covered_next(*func, dom, headers@, bodies@.map_values(|b: HashSet<u32>| b@), ui as int, u, succs@);
                assert(in_order(*func, dom, headers@, first, ui + 1, 0));
            }
        } else {
            proof {
                reveal(covered);
                let bv = bodies@.map_values(|b: HashSet<u32>| b@);
                assert(covered(*func, dom, headers@, bv, ui as int, u, Seq::empty(), 0));
                lemma_covered_next(*func, dom, headers@, bv, ui as int, u, Seq::empty());
                assert(in_order(*func, dom, headers@, first, ui + 1, 0));
            }
        }
        ui = ui + 1;
    }
    // Stable body order: function block order.
    let ghost bv = bodies@.map_values(|b: HashSet<u32>| b@);
    proof {
        reveal(gathered);
    }
    let mut loops: Vec<NaturalLoop> = Vec::new();
    let mut h: usize = 0;
    while h < headers.len()
        invariant
            h <= headers.len(),
            headers.len() == bodies.len(),
            loops.len() == h,
            bv == bodies@.map_values(|b: HashSet<u32>| b@),
            forall|i: int| 0 <= i < h ==> {
                &&& (#[trigger] loops@[i]).header == headers@[i]
                &&& loops@[i].body@ == ids_in(func.blocks@, bodies@[i]@)
            },
        decreases headers.len() - h,
    {
        let body = &bodies[h];
        let mut body_vec: Vec<u32> = Vec::new();
        let mut b: usize = 0;
        while b < func.blocks.len()
            invariant
                b <= func.blocks.len(),
                body_vec@ == ids_in(func.blocks@.take(b as int), body@),
            decreases func.blocks.len() - b,
        {
            proof {
                assert(func.blocks@.take(b + 1).drop_last() =~= func.blocks@.take(b as int));
            }
            if body.contains(&func.blocks[b].id) {
                body_vec.push(func.blocks[b].id);
            }
            b = b + 1;
        }
        proof {
            assert(func.blocks@.take(func.blocks.len() as int) =~= func.blocks@);
        }
        loops.push(NaturalLoop { header: headers[h], body: body_vec });
        h = h + 1;
    }
    proof {
        lemma_loops_of(*func, dom, edges@, headers@, bv, loops@, first);
        lemma_loops_dominating_back_edges(*func, dom, loops@);
    }
    loops
}

/// Each loop body is within every set closed as a loop body must be.
proof fn lemma_loops_least(func: Function, dom: Map<u32, u32>, edges: Seq<(u32, u32)>, headers: Seq<u32>, bodies: Seq<Set<u32>>, loops: Seq<NaturalLoop>)
    requires
        loops.len() == headers.len(),
        forall|i: int| 0 <= i < loops.len() ==> {
            &&& (#[trigger] loops[i]).header == headers[i]
            &&& loops[i].body@ == ids_in(func.blocks@, bodies[i])
        },
        gathered(func, dom, edges, headers, bodies),
    ensures
        forall|i: int, s: Set<u32>, x: u32|
            0 <= i < loops.len() && #[trigger] loop_closure(func, dom, loops[i].header, s) && #[trigger] loops[i].body@.contains(x)
            ==> s.contains(x),
{
    reveal(gathered);
    assert forall|i: int, s: Set<u32>, x: u32|
        0 <= i < loops.len() && #[trigger] loop_closure(func, dom, loops[i].header, s) && #[trigger] loops[i].body@.contains(x)
        implies s.contains(x) by {
        assert(is_block_id(func, headers[i]));
        let j = choose|j: int| 0 <= j < loops[i].body@.len() && loops[i].body@[j] == x;
        lemma_ids_in_are_ids(func.blocks@, bodies[i], j);
        assert(loop_closure(func, dom, headers[i], s));
        assert(bodies[i].subset_of(s));
    }
}

/// The loops built from the gathered headers and bodies meet the contract
/// of `natural_loops`.
proof fn lemma_loops_of(func: Function, dom: Map<u32, u32>, edges: Seq<(u32, u32)>, headers: Seq<u32>, bodies: Seq<Set<u32>>, loops: Seq<NaturalLoop>, first: Seq<(int, int)>)
    requires
        dominator_map(func, dom),
        loops.len() == headers.len(),
        forall|i: int| 0 <= i < loops.len() ==> {
            &&& (#[trigger] loops[i]).header == headers[i]
            &&& loops[i].body@ == ids_in(func.blocks@, bodies[i])
        },
        forall|p: u32, s: u32| #![trigger spec_successors(func, p).contains(s)]
            dom.contains_key(p) && dom.contains_key(s) && spec_successors(func, p).contains(s) ==> edges.contains((p, s)),
        gathered(func, dom, edges, headers, bodies),
        covered(func, dom, headers, bodies, func.blocks.len() as int, 0, Seq::empty(), 0),
        walk_order(func, dom, headers, first),
    ensures
        forall|i: int| 0 <= i < loops.len() ==> {
            &&& is_block_id(func, (#[trigger] loops[i]).header)
            &&& loops[i].body@.contains(loops[i].header)
            &&& exists|s: Set<u32>| loops[i].body@ == ids_in(func.blocks@, s)
            &&& forall|j: int| 0 <= j < loops[i].body.len() ==> is_block_id(func, #[trigger] loops[i].body@[j])
            &&& reachable_order(func).contains(loops[i].header)
            &&& forall|j: int| 0 <= j < loops[i].body.len() ==> reachable_order(func).contains(#[trigger] loops[i].body@[j])
        },
        forall|i: int, j: int| 0 <= i < j < loops.len() ==> (#[trigger] loops[i]).header != (#[trigger] loops[j]).header,
        exists|d: Map<u32, u32>| dominator_map(func, d) && loops_of(func, d, loops),
        loops_of(func, dom, loops),
{
    lemma_loops_basic(func, dom, edges, headers, bodies, loops);
    lemma_loops_cover(func, dom, edges, headers, bodies, loops);
    lemma_loops_closed(func, dom, edges, headers, bodies, loops);
    lemma_loops_least(func, dom, edges, headers, bodies, loops);
    assert(loop_headers(loops) =~= headers);
    assert(loops_of(func, dom, loops));
}

/// The loops built from the gathered headers and bodies: headers and
/// bodies are reachable blocks, and headers are distinct.
proof fn lemma_loops_basic(func: Function, dom: Map<u32, u32>, edges: Seq<(u32, u32)>, headers: Seq<u32>, bodies: Seq<Set<u32>>, loops: Seq<NaturalLoop>)
    requires
        dominator_map(func, dom),
        loops.len() == headers.len(),
        forall|i: int| 0 <= i < loops.len() ==> {
            &&& (#[trigger] loops[i]).header == headers[i]
            &&& loops[i].body@ == ids_in(func.blocks@, bodies[i])
        },
        gathered(func, dom, edges, headers, bodies),
    ensures
        forall|i: int| 0 <= i < loops.len() ==> {
            &&& is_block_id(func, (#[trigger] loops[i]).header)
            &&& loops[i].body@.contains(loops[i].header)
            &&& exists|s: Set<u32>| loops[i].body@ == ids_in(func.blocks@, s)
            &&& forall|j: int| 0 <= j < loops[i].body.len() ==> is_block_id(func, #[trigger] loops[i].body@[j])
            &&& reachable_order(func).contains(loops[i].header)
            &&& forall|j: int| 0 <= j < loops[i].body.len() ==> reachable_order(func).contains(#[trigger] loops[i].body@[j])
        },
        forall|i: int, j: int| 0 <= i < j < loops.len() ==> (#[trigger] loops[i]).header != (#[trigger] loops[j]).header,
{
    reveal(gathered);
    assert forall|i: int| 0 <= i < loops.len() implies {
        &&& is_block_id(func, (#[trigger] loops[i]).header)
        &&& loops[i].body@.contains(loops[i].header)
        &&& exists|s: Set<u32>| loops[i].body@ == ids_in(func.blocks@, s)
        &&& forall|j: int| 0 <= j < loops[i].body.len() ==> is_block_id(func, #[trigger] loops[i].body@[j])
        &&& reachable_order(func).contains(loops[i].header)
        &&& forall|j: int| 0 <= j < loops[i].body.len() ==> reachable_order(func).contains(#[trigger] loops[i].body@[j])
    } by {
        assert(is_block_id(func, headers[i]));
        assert forall|j: int| 0 <= j < loops[i].body.len() implies is_block_id(func, #[trigger] loops[i].body@[j])
            && reachable_order(func).contains(loops[i].body@[j]) by {
            lemma_ids_in_are_ids(func.blocks@, bodies[i], j);
            assert(dom.contains_key(loops[i].body@[j]));
        }
        assert(dom.contains_key(headers[i]));
        let x = headers[i];
        let j = choose|j: int| 0 <= j < func.blocks.len() && func.blocks[j].id == x;
        lemma_ids_in(func.blocks@, bodies[i], x, j);
    }
    assert forall|i: int, j: int| 0 <= i < j < loops.len() implies (#[trigger] loops[i]).header != (#[trigger] loops[j]).header by {
        assert(headers[i] != headers[j]);
    }
}

/// Every back edge is covered by a loop, and every loop has a back edge.
proof fn lemma_loops_cover(func: Function, dom: Map<u32, u32>, edges: Seq<(u32, u32)>, headers: Seq<u32>, bodies: Seq<Set<u32>>, loops: Seq<NaturalLoop>)
    requires
        dominator_map(func, dom),
        loops.len() == headers.len(),
        forall|i: int| 0 <= i < loops.len() ==> {
            &&& (#[trigger] loops[i]).header == headers[i]
            &&& loops[i].body@ == ids_in(func.blocks@, bodies[i])
        },
        gathered(func, dom, edges, headers, bodies),
        covered(func, dom, headers, bodies, func.blocks.len() as int, 0, Seq::empty(), 0),
    ensures
        forall|u: u32, v: u32| #[trigger] back_edge(func, dom, u, v)
            ==> exists|i: int| 0 <= i < loops.len() && (#[trigger] loops[i]).header == v && loops[i].body@.contains(u),
        forall|i: int| 0 <= i < loops.len() ==> #[trigger] has_back_edge(func, dom, loops[i]),
{
    reveal(covered);
    assert forall|u: u32, v: u32| #[trigger] back_edge(func, dom, u, v)
        implies exists|i: int| 0 <= i < loops.len() && (#[trigger] loops[i]).header == v && loops[i].body@.contains(u) by {
        assert(is_block_id(func, u));
        let m = choose|m: int| 0 <= m < func.blocks.len() && func.blocks[m].id == u;
        assert(func.blocks[m].id == u);
        let h = choose|h: int| 0 <= h < headers.len() && headers[h] == v && #[trigger] bodies[h].contains(u);
        lemma_ids_in(func.blocks@, bodies[h], u, m);
        assert(loops[h].header == v);
    }
    reveal(gathered);
    assert forall|i: int| 0 <= i < loops.len() implies #[trigger] has_back_edge(func, dom, loops[i]) by {
        assert(is_block_id(func, headers[i]));
        let a = choose|a: u32| #[trigger] back_edge(func, dom, a, headers[i]) && bodies[i].contains(a);
        assert(is_block_id(func, a));
        let m = choose|m: int| 0 <= m < func.blocks.len() && func.blocks[m].id == a;
        lemma_ids_in(func.blocks@, bodies[i], a, m);
        assert(loops[i].header == headers[i]);
        assert(back_edge(func, dom, a, loops[i].header) && loops[i].body@.contains(a));
    }
}

/// Each loop body holds every reachable predecessor of its blocks other
/// than the header.
proof fn lemma_loops_closed(func: Function, dom: Map<u32, u32>, edges: Seq<(u32, u32)>, headers: Seq<u32>, bodies: Seq<Set<u32>>, loops: Seq<NaturalLoop>)
    requires
        dominator_map(func, dom),
        loops.len() == headers.len(),
        forall|i: int| 0 <= i < loops.len() ==> {
            &&& (#[trigger] loops[i]).header == headers[i]
            &&& loops[i].body@ == ids_in(func.blocks@, bodies[i])
        },
        forall|p: u32, s: u32| #![trigger spec_successors(func, p).contains(s)]
            dom.contains_key(p) && dom.contains_key(s) && spec_successors(func, p).contains(s) ==> edges.contains((p, s)),
        gathered(func, dom, edges, headers, bodies),
    ensures
        forall|i: int, n: u32, p: u32|
            0 <= i < loops.len() && (#[trigger] loops[i]).body@.contains(n) && n != loops[i].header
                && dom.contains_key(p) && #[trigger] spec_successors(func, p).contains(n)
            ==> loops[i].body@.contains(p),
{
    reveal(gathered);
    assert forall|i: int, n: u32, p: u32|
        0 <= i < loops.len() && (#[trigger] loops[i]).body@.contains(n) && n != loops[i].header
            && dom.contains_key(p) && #[trigger] spec_successors(func, p).contains(n)
        implies loops[i].body@.contains(p) by {
        assert(is_block_id(func, headers[i]));
        let j = choose|j: int| 0 <= j < loops[i].body@.len() && loops[i].body@[j] == n;
        lemma_ids_in_are_ids(func.blocks@, bodies[i], j);
        assert(bodies[i].contains(n));
        assert(dom.contains_key(n));
        assert(edges.contains((p, n)));
        assert(closed_under(bodies[i], headers[i], edges));
        assert(bodies[i].contains(p));
        assert(is_block_id(func, p));
        let m = choose|m: int| 0 <= m < func.blocks.len() && func.blocks[m].id == p;
        lemma_ids_in(func.blocks@, bodies[i], p, m);
    }
}

} // verus!
