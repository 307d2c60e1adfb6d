//! Dominance over paths of the control-flow graph.
//!
//! A block `d` dominates a block `b` when every path from the entry block to
//! `b` passes through `d`; the immediate dominator of `b` is the dominator
//! other than `b` that every other such dominator dominates.

use std::collections::HashSet;

use vstd::prelude::*;

use crate::ir::Function;
use crate::passes::cfg::{block_ids, has_parent, is_block_id, lemma_block_ids, lemma_sole_pred, sole_predecessor, spec_successors, successors, succs_within, valid_succ};

verus! {

broadcast use vstd::std_specs::hash::group_hash_axioms;

/// Step `i` of `p` follows a CFG edge into a real block.
pub open spec fn path_step(func: Function, p: Seq<u32>, i: int) -> bool {
    valid_succ(func, p[i], p[i + 1])
}

/// `p` is a path of the CFG that starts at the entry block.
pub open spec fn entry_path(func: Function, p: Seq<u32>) -> bool {
    &&& p.len() > 0
    &&& p[0] == func.entry
    &&& is_block_id(func, func.entry)
    &&& forall|i: int| 0 <= i < p.len() - 1 ==> #[trigger] path_step(func, p, i)
}

/// Some path from the entry ends at `b`.
pub open spec fn reaches(func: Function, b: u32) -> bool {
    exists|p: Seq<u32>| #[trigger] entry_path(func, p) && p.last() == b
}

/// Some path from the entry ends at `b` without passing through `d`.
pub open spec fn reaches_avoiding(func: Function, d: u32, b: u32) -> bool {
    exists|p: Seq<u32>| #[trigger] entry_path(func, p) && p.last() == b && !p.contains(d)
}

/// `d` dominates `b`: every path from the entry to `b` passes through `d`.
pub open spec fn path_dominates(func: Function, d: u32, b: u32) -> bool {
    forall|p: Seq<u32>| #[trigger] entry_path(func, p) && p.last() == b ==> p.contains(d)
}

/// `d` is the immediate dominator of `b`: a dominator of `b` other than `b`
/// that every other dominator of `b` dominates.
pub open spec fn immediate_dominator(func: Function, d: u32, b: u32) -> bool {
    &&& d != b
    &&& path_dominates(func, d, b)
    &&& forall|x: u32| x != b && #[trigger] path_dominates(func, x, b) ==> path_dominates(func, x, d)
}

/// A path extended by an edge is a path.
pub proof fn lemma_path_push(func: Function, p: Seq<u32>, s: u32)
    requires
        entry_path(func, p),
        valid_succ(func, p.last(), s),
    ensures
        entry_path(func, p.push(s)),
{
    let q = p.push(s);
    assert forall|i: int| 0 <= i < q.len() - 1 implies #[trigger] path_step(func, q, i) by {
        if i < p.len() - 1 {
            assert(path_step(func, p, i));
        }
    }
}

/// A nonempty prefix of a path is a path.
pub proof fn lemma_path_prefix(func: Function, p: Seq<u32>, k: int)
    requires
        entry_path(func, p),
        0 <= k < p.len(),
    ensures
        entry_path(func, p.take(k + 1)),
        p.take(k + 1).last() == p[k],
{
    let q = p.take(k + 1);
    assert forall|i: int| 0 <= i < q.len() - 1 implies #[trigger] path_step(func, q, i) by {
        assert(path_step(func, p, i));
    }
}

/// A path to `p[j]` followed by the rest of `p` after `j` is a path to the
/// end of `p`, made of the blocks of the first path and of `p` after `j`.
proof fn lemma_path_splice(func: Function, q: Seq<u32>, p: Seq<u32>, j: int)
    requires
        entry_path(func, q),
        entry_path(func, p),
        0 <= j < p.len(),
        q.last() == p[j],
    ensures
        entry_path(func, q + p.subrange(j + 1, p.len() as int)),
        (q + p.subrange(j + 1, p.len() as int)).last() == p.last(),
        forall|x: u32| (q + p.subrange(j + 1, p.len() as int)).contains(x)
            ==> q.contains(x) || exists|k: int| j < k < p.len() && p[k] == x,
{
    let r = q + p.subrange(j + 1, p.len() as int);
    assert forall|i: int| 0 <= i < r.len() - 1 implies #[trigger] path_step(func, r, i) by {
        if i < q.len() - 1 {
            assert(path_step(func, q, i));
        } else if i == q.len() - 1 {
            assert(path_step(func, p, j));
        } else {
            assert(path_step(func, p, j + 1 + (i - q.len())));
        }
    }
    assert forall|x: u32| r.contains(x) implies q.contains(x) || exists|k: int| j < k < p.len() && p[k] == x by {
        let m = choose|m: int| 0 <= m < r.len() && r[m] == x;
        if m >= q.len() {
            assert(p[j + 1 + (m - q.len())] == x);
        }
    }
}

/// The first position of `x` in `p`.
proof fn lemma_first_occurrence(p: Seq<u32>, x: u32) -> (k: int)
    requires
        p.contains(x),
    ensures
        0 <= k < p.len(),
        p[k] == x,
        forall|i: int| 0 <= i < k ==> p[i] != x,
    decreases p.len(),
{
    if p.drop_last().contains(x) {
        let k = lemma_first_occurrence(p.drop_last(), x);
        assert forall|i: int| 0 <= i < k implies p[i] != x by {
            assert(p.drop_last()[i] == p[i]);
        }
        k
    } else {
        let i = choose|i: int| 0 <= i < p.len() && p[i] == x;
        if i < p.len() - 1 {
            assert(p.drop_last()[i] == x);
        }
        assert forall|i2: int| 0 <= i2 < p.len() - 1 implies p[i2] != x by {
            assert(p.drop_last()[i2] == p[i2]);
        }
        p.len() - 1
    }
}

/// The last position of `x` in `p`.
proof fn lemma_last_occurrence(p: Seq<u32>, x: u32) -> (k: int)
    requires
        p.contains(x),
    ensures
        0 <= k < p.len(),
        p[k] == x,
        forall|i: int| k < i < p.len() ==> p[i] != x,
    decreases p.len(),
{
    if p.last() == x {
        p.len() - 1
    } else {
        let i = choose|i: int| 0 <= i < p.len() && p[i] == x;
        assert(p.drop_last()[i] == x);
        let k = lemma_last_occurrence(p.drop_last(), x);
        assert forall|i2: int| k < i2 < p.len() implies p[i2] != x by {
            if i2 < p.len() - 1 {
                assert(p.drop_last()[i2] == p[i2]);
            }
        }
        k
    }
}

/// Every block dominates itself, and the entry dominates every block.
pub proof fn lemma_dominates_refl_entry(func: Function, b: u32)
    ensures
        path_dominates(func, b, b),
        path_dominates(func, func.entry, b),
{
    assert forall|p: Seq<u32>| #[trigger] entry_path(func, p) && p.last() == b implies p.contains(b) by {
        assert(p[p.len() - 1] == b);
    }
    assert forall|p: Seq<u32>| #[trigger] entry_path(func, p) && p.last() == b implies p.contains(func.entry) by {
        assert(p[0] == func.entry);
    }
}

/// Dominance is transitive.
pub proof fn lemma_dominates_trans(func: Function, x: u32, y: u32, z: u32)
    requires
        path_dominates(func, x, y),
        path_dominates(func, y, z),
    ensures
        path_dominates(func, x, z),
{
    assert forall|p: Seq<u32>| #[trigger] entry_path(func, p) && p.last() == z implies p.contains(x) by {
        let k = choose|k: int| 0 <= k < p.len() && p[k] == y;
        lemma_path_prefix(func, p, k);
        let pk = p.take(k + 1);
        assert(pk.contains(x));
        let m = choose|m: int| 0 <= m < pk.len() && pk[m] == x;
        assert(p[m] == x);
    }
}

/// A dominator of `b` other than `b` dominates every block with an edge
/// into `b`.
pub proof fn lemma_dominates_pred(func: Function, d: u32, b: u32, q: u32)
    requires
        path_dominates(func, d, b),
        d != b,
        valid_succ(func, q, b),
    ensures
        path_dominates(func, d, q),
{
    assert forall|p: Seq<u32>| #[trigger] entry_path(func, p) && p.last() == q implies p.contains(d) by {
        lemma_path_push(func, p, b);
        let r = p.push(b);
        assert(r.last() == b);
        assert(r.contains(d));
        let m = choose|m: int| 0 <= m < r.len() && r[m] == d;
        assert(m < p.len());
        assert(p[m] == d);
    }
}

/// Two blocks that dominate each other are the same block.
pub proof fn lemma_dominates_antisym(func: Function, x: u32, y: u32)
    requires
        path_dominates(func, x, y),
        path_dominates(func, y, x),
        reaches(func, x),
    ensures
        x == y,
{
    if x != y {
        let p = choose|p: Seq<u32>| #[trigger] entry_path(func, p) && p.last() == x;
        assert(p.contains(y));
        let k = lemma_first_occurrence(p, y);
        lemma_path_prefix(func, p, k);
        let pk = p.take(k + 1);
        assert(pk.contains(x));
        let m = choose|m: int| 0 <= m < pk.len() && pk[m] == x;
        assert(m != k);
        lemma_path_prefix(func, p, m);
        let pm = p.take(m + 1);
        assert(pm.contains(y));
        let t = choose|t: int| 0 <= t < pm.len() && pm[t] == y;
        assert(p[t] == y);
    }
}

/// The dominators of a reached block are ordered by dominance.
pub proof fn lemma_dominators_ordered(func: Function, x: u32, y: u32, b: u32)
    requires
        path_dominates(func, x, b),
        path_dominates(func, y, b),
        reaches(func, b),
    ensures
        path_dominates(func, x, y) || path_dominates(func, y, x),
{
    if x == y {
        lemma_dominates_refl_entry(func, x);
    } else if !path_dominates(func, x, y) && !path_dominates(func, y, x) {
        let p = choose|p: Seq<u32>| #[trigger] entry_path(func, p) && p.last() == b;
        assert(p.contains(x) && p.contains(y));
        let i = lemma_last_occurrence(p, x);
        let j = lemma_last_occurrence(p, y);
        let q = choose|q: Seq<u32>| #[trigger] entry_path(func, q) && q.last() == y && !q.contains(x);
        let r = choose|r: Seq<u32>| #[trigger] entry_path(func, r) && r.last() == x && !r.contains(y);
        if j > i {
            lemma_path_splice(func, q, p, j);
            let s = q + p.subrange(j + 1, p.len() as int);
            assert(s.contains(x));
        } else {
            assert(i > j);
            lemma_path_splice(func, r, p, i);
            let s = r + p.subrange(i + 1, p.len() as int);
            assert(s.contains(y));
        }
    }
}

/// Every block of a path lies in `order` when `order` holds the entry and
/// every real successor of its blocks.
pub proof fn lemma_path_within(func: Function, order: Seq<u32>, p: Seq<u32>)
    requires
        entry_path(func, p),
        order.contains(func.entry),
        succs_within(func, order, order.to_set()),
    ensures
        forall|k: int| 0 <= k < p.len() ==> order.contains(#[trigger] p[k]),
    decreases p.len(),
{
    if p.len() > 1 {
        let n = p.len() - 1;
        lemma_path_prefix(func, p, n - 1);
        let q = p.take(n);
        lemma_path_within(func, order, q);
        assert forall|k: int| 0 <= k < p.len() implies order.contains(#[trigger] p[k]) by {
            if k < n {
                assert(q[k] == p[k]);
            } else {
                assert(order.contains(q[n - 1]));
                let m = choose|m: int| 0 <= m < order.len() && order[m] == p[n - 1];
                assert(path_step(func, p, n - 1));
                assert(valid_succ(func, order[m], p[k]));
                assert(order.to_set().contains(p[k]));
            }
        }
    }
}

/// Some position of `order` after `i` holds `x`.
pub open spec fn listed_after(order: Seq<u32>, i: int, x: u32) -> bool {
    exists|m: int| i < m < order.len() && order[m] == x
}

/// In a depth-first postorder ending at the entry, where every other block
/// has a predecessor listed after it, every listed block is reached by a path
/// whose other blocks are all listed after it.
pub proof fn lemma_order_reached(func: Function, order: Seq<u32>, i: int) -> (p: Seq<u32>)
    requires
        0 <= i < order.len(),
        order.last() == func.entry,
        is_block_id(func, func.entry),
        forall|j: int| 0 <= j < order.len() ==> is_block_id(func, #[trigger] order[j]),
        forall|j: int| 0 <= j < order.len() - 1 ==> has_parent(func, order, j),
    ensures
        entry_path(func, p),
        p.last() == order[i],
        forall|k: int| 0 <= k < p.len() - 1 ==> #[trigger] listed_after(order, i, p[k]),
    decreases order.len() - i,
{
    if i == order.len() - 1 {
        let p = seq![func.entry];
        assert forall|k: int| 0 <= k < p.len() - 1 implies #[trigger] path_step(func, p, k) by {}
        p
    } else {
        assert(has_parent(func, order, i));
        let pp = choose|pp: int| i < pp < order.len() && #[trigger] spec_successors(func, order[pp]).contains(order[i]);
        let q = lemma_order_reached(func, order, pp);
        assert(valid_succ(func, q.last(), order[i]));
        lemma_path_push(func, q, order[i]);
        let p = q.push(order[i]);
        assert forall|k: int| 0 <= k < p.len() - 1 implies #[trigger] listed_after(order, i, p[k]) by {
            if k < q.len() - 1 {
                assert(listed_after(order, pp, q[k]));
                let m = choose|m: int| pp < m < order.len() && order[m] == q[k];
                assert(p[k] == q[k]);
            } else {
                assert(p[k] == order[pp]);
            }
        }
        p
    }
}

/// When `b` has a sole predecessor `q` and is reached, `q` is its immediate
/// dominator.
pub proof fn lemma_sole_pred_idom(func: Function, b: u32)
    requires
        reaches(func, b),
        b != func.entry,
        sole_predecessor(func, b) is Some,
    ensures
        immediate_dominator(func, sole_predecessor(func, b)->0, b),
        reaches(func, sole_predecessor(func, b)->0),
        valid_succ(func, sole_predecessor(func, b)->0, b),
{
    let q = sole_predecessor(func, b)->0;
    let p0 = choose|p: Seq<u32>| #[trigger] entry_path(func, p) && p.last() == b;
    let k0 = lemma_first_occurrence(p0, b);
    assert(k0 > 0);
    assert(path_step(func, p0, k0 - 1));
    assert(is_block_id(func, p0[k0 - 1])) by {
        if k0 - 1 == 0 {
        } else {
            assert(path_step(func, p0, k0 - 2));
        }
    }
    lemma_sole_pred(func, b, p0[k0 - 1]);
    assert(p0[k0 - 1] == q);
    assert(q != b);
    lemma_path_prefix(func, p0, k0 - 1);
    assert(reaches(func, q));
    assert(valid_succ(func, q, b));
    assert forall|p: Seq<u32>| #[trigger] entry_path(func, p) && p.last() == b implies p.contains(q) by {
        let n = p.len() - 1;
        assert(n > 0);
        assert(path_step(func, p, n - 1));
        assert(is_block_id(func, p[n - 1])) by {
            if n - 1 > 0 {
                assert(path_step(func, p, n - 2));
            }
        }
        lemma_sole_pred(func, b, p[n - 1]);
    }
    assert forall|x: u32| x != b && #[trigger] path_dominates(func, x, b) implies path_dominates(func, x, q) by {
        lemma_dominates_pred(func, x, b, q);
    }
}

/// A reached block has at most one immediate dominator.
pub proof fn lemma_idom_unique(func: Function, d1: u32, d2: u32, b: u32)
    requires
        immediate_dominator(func, d1, b),
        immediate_dominator(func, d2, b),
        reaches(func, b),
    ensures
        d1 == d2,
{
    assert(path_dominates(func, d1, d2));
    assert(path_dominates(func, d2, d1));
    let p = choose|p: Seq<u32>| #[trigger] entry_path(func, p) && p.last() == b;
    assert(p.contains(d1));
    let k = choose|k: int| 0 <= k < p.len() && p[k] == d1;
    lemma_path_prefix(func, p, k);
    assert(reaches(func, d1));
    lemma_dominates_antisym(func, d1, d2);
}

/// A set of blocks that holds the entry and, with each of its blocks, every
/// real successor other than `d` holds the last block of every path that
/// avoids `d`.
proof fn lemma_closed_holds_path(func: Function, d: u32, seen: Set<u32>, p: Seq<u32>)
    requires
        seen.contains(func.entry),
        forall|x: u32, s: u32| seen.contains(x) && #[trigger] valid_succ(func, x, s) && s != d ==> seen.contains(s),
        entry_path(func, p),
        !p.contains(d),
    ensures
        seen.contains(p.last()),
    decreases p.len(),
{
    if p.len() > 1 {
        let n = p.len() - 1;
        lemma_path_prefix(func, p, n - 1);
        let q = p.take(n);
        assert(!q.contains(d)) by {
            if q.contains(d) {
                let m = choose|m: int| 0 <= m < q.len() && q[m] == d;
                assert(p[m] == d);
            }
        }
        lemma_closed_holds_path(func, d, seen, q);
        assert(path_step(func, p, n - 1));
        assert(p[n] != d);
    }
}

/// The blocks reached from the entry along paths that avoid `d`.
pub(crate) fn reach_avoiding(func: &Function, valid: &HashSet<u32>, d: u32) -> (r: HashSet<u32>)
    requires
        valid@ == block_ids(*func),
    ensures
        forall|b: u32| #[trigger] r@.contains(b) <==> reaches_avoiding(*func, d, b),
{
    let mut seen: HashSet<u32> = HashSet::new();
    if !valid.contains(&func.entry) || func.entry == d {
        proof {
            assert forall|b: u32| #[trigger] seen@.contains(b) <==> reaches_avoiding(*func, d, b) by {
                if reaches_avoiding(*func, d, b) {
                    let p = choose|p: Seq<u32>| #[trigger] entry_path(*func, p) && p.last() == b && !p.contains(d);
                    assert(p[0] == func.entry);
                }
            }
        }
        return seen;
    }
    proof {
        lemma_block_ids(*func);
    }
    let ghost ids = block_ids(*func);
    seen.insert(func.entry);
    let mut stack: Vec<u32> = Vec::new();
    stack.push(func.entry);
    proof {
        let p = seq![func.entry];
        assert forall|k: int| 0 <= k < p.len() - 1 implies #[trigger] path_step(*func, p, k) by {}
        assert(entry_path(*func, p) && p.last() == func.entry && !p.contains(d));
        vstd::set_lib::lemma_len_subset(seen@, ids);
    }
    while stack.len() > 0
        invariant
            valid@ == ids,
            ids == block_ids(*func),
            ids.finite(),
            seen@.subset_of(ids),
            seen@.len() <= ids.len(),
            seen@.finite(),
            seen@.contains(func.entry),
            is_block_id(*func, func.entry),
            !seen@.contains(d),
            forall|x: u32| #[trigger] seen@.contains(x) ==> reaches_avoiding(*func, d, x),
            forall|k: int| 0 <= k < stack.len() ==> seen@.contains(#[trigger] stack@[k]),
            forall|x: u32, s: u32| seen@.contains(x) && !stack@.contains(x) && #[trigger] valid_succ(*func, x, s) && s != d
                ==> seen@.contains(s),
        decreases ids.len() - seen@.len(), stack.len(),
    {
        let ghost stack0 = stack@;
        let ghost seen0 = seen@;
        let x = stack.pop().unwrap();
        let ghost popped = stack@;
        proof {
            assert(stack0 == popped.push(x));
            assert forall|y: u32| #[trigger] stack0.contains(y) && y != x implies popped.contains(y) by {
                let i = choose|i: int| 0 <= i < stack0.len() && stack0[i] == y;
                assert(i < popped.len());
                assert(popped[i] == y);
            }
        }
        let succs = successors(func, x);
        let mut k: usize = 0;
        while k < succs.len()
            invariant
                k <= succs.len(),
                succs@ == spec_successors(*func, x),
                valid@ == ids,
                ids == block_ids(*func),
                ids.finite(),
                seen@.subset_of(ids),
                seen@.len() <= ids.len(),
                seen0.subset_of(seen@),
                seen@.finite(),
                seen@.len() > seen0.len() || (seen@ == seen0 && stack@ == popped),
                stack@.len() >= popped.len(),
                forall|i: int| 0 <= i < popped.len() ==> stack@[i] == popped[i],
                seen@.contains(func.entry),
                seen@.contains(x),
                !seen@.contains(d),
                forall|y: u32| #[trigger] seen@.contains(y) ==> reaches_avoiding(*func, d, y),
                forall|i: int| 0 <= i < stack.len() ==> seen@.contains(#[trigger] stack@[i]),
                forall|i: int| 0 <= i < k && is_block_id(*func, #[trigger] succs@[i]) && succs@[i] != d ==> seen@.contains(succs@[i]),
                forall|y: u32, s: u32| seen@.contains(y) && !stack@.contains(y) && y != x && #[trigger] valid_succ(*func, y, s) && s != d
                    ==> seen@.contains(s),
            decreases succs.len() - k,
        {
            let s = succs[k];
            let ghost stack_in = stack@;
            let ghost seen_in = seen@;
            if valid.contains(&s) && s != d && !seen.contains(&s) {
                proof {
                    let py = choose|p: Seq<u32>| #[trigger] entry_path(*func, p) && p.last() == x && !p.contains(d);
                    assert(succs@.contains(s));
                    assert(valid_succ(*func, py.last(), s));
                    lemma_path_push(*func, py, s);
                    let q = py.push(s);
                    assert(!q.contains(d)) by {
                        if q.contains(d) {
                            let m = choose|m: int| 0 <= m < q.len() && q[m] == d;
                            if m < py.len() {
                                assert(py[m] == d);
                            }
                        }
                    }
                    assert(reaches_avoiding(*func, d, s));
                }
                seen.insert(s);
                stack.push(s);
                proof {
                    vstd::set_lib::lemma_len_subset(seen@, ids);
                    assert forall|y: u32| #[trigger] stack_in.contains(y) implies stack@.contains(y) by {
                        let i = choose|i: int| 0 <= i < stack_in.len() && stack_in[i] == y;
                        assert(stack@[i] == y);
                    }
                    assert(stack@.contains(s)) by {
                        assert(stack@[stack@.len() - 1] == s);
                    }
                    assert forall|y: u32, s2: u32| seen@.contains(y) && !stack@.contains(y) && y != x
                        && #[trigger] valid_succ(*func, y, s2) && s2 != d implies seen@.contains(s2) by {
                        assert(seen_in.contains(y));
                        assert(!stack_in.contains(y));
                        assert(seen_in.contains(s2));
                    }
                }
            }
            k = k + 1;
        }
        proof {
            assert forall|y: u32, s: u32| seen@.contains(y) && !stack@.contains(y) && #[trigger] valid_succ(*func, y, s) && s != d
                implies seen@.contains(s) by {
                if y == x {
                    let i = choose|i: int| 0 <= i < succs@.len() && succs@[i] == s;
                }
            }
            if seen@ == seen0 {
                assert forall|y: u32, s: u32| seen0.contains(y) && !stack0.contains(y) && #[trigger] valid_succ(*func, y, s) && s != d
                    implies seen0.contains(s) by {}
            }
        }
    }
    proof {
        assert forall|b: u32| #[trigger] seen@.contains(b) <==> reaches_avoiding(*func, d, b) by {
            if reaches_avoiding(*func, d, b) {
                let p = choose|p: Seq<u32>| #[trigger] entry_path(*func, p) && p.last() == b && !p.contains(d);
                lemma_closed_holds_path(*func, d, seen@, p);
            }
        }
    }
    seen
}

} // verus!
