//! Global common subexpression elimination over a `Function`.
//!
//! Forwards the intra-block available-expression table along dominator-tree
//! edges where the dominated child has exactly one CFG predecessor and that
//! predecessor is its immediate dominator. Join blocks (multiple
//! predecessors) start with an empty table — conservative but sound. Within
//! each block the logic matches local CSE.

use std::collections::HashMap;

use vstd::prelude::*;

use crate::ir::{BasicBlock, Function};
use crate::passes::cfg::{
    cfg_edges, dominators, edges_upto, first_in, has_parent, in_count, is_block_id, lemma_sole_pred, postorder,
    reachable_order, sole_predecessor, spec_successors, successors,
};
use crate::passes::cse::{cse_block_from, cse_env_from, cse_stmts};
use crate::passes::Pass;

verus! {

broadcast use vstd::std_specs::hash::group_hash_axioms;

#[derive(Debug, Default, Clone, Copy, PartialEq, Eq)]
pub struct GlobalCse;

impl GlobalCse {
    #[must_use]
    pub fn new() -> Self {
        Self
    }
}

/// No later block has the id of block `i`.
pub open spec fn last_with_id(func: Function, i: int) -> bool {
    forall|m: int| i < m < func.blocks.len() ==> #[trigger] func.blocks[m].id != func.blocks[i].id
}

/// Block `i` is rewritten: its id is reachable from the entry and no later
/// block has the same id.
#[verifier::opaque]
pub open spec fn rewritten(func: Function, i: int) -> bool {
    reachable_order(func).contains(func.blocks[i].id) && last_with_id(func, i)
}

/// Block `i` has a sole predecessor and is not the entry: its table comes
/// from that predecessor.
pub open spec fn forwards_into(func: Function, i: int) -> bool {
    func.blocks[i].id != func.entry && sole_predecessor(func, func.blocks[i].id) is Some
}

/// The table block `i` starts from: for a block other than the entry with a
/// sole predecessor, the table at the end of the rewritten block `p` with
/// that predecessor's id; for any other block, an empty table.
pub open spec fn forwarded_table(func: Function, start: Seq<Map<u128, u32>>, i: int) -> bool {
    if forwards_into(func, i) {
        exists|p: int| {
            &&& 0 <= p < func.blocks.len()
            &&& func.blocks[p].id == sole_predecessor(func, func.blocks[i].id)->0
            &&& #[trigger] rewritten(func, p)
            &&& start[i] == cse_env_from(func.blocks[p].stmts@, func.blocks[p].stmts@.len(), start[p])
        }
    } else {
        start[i] == Map::<u128, u32>::empty()
    }
}

/// `forwarded_table`, with the source block's id also among `done`.
spec fn forwarded_within(func: Function, start: Seq<Map<u128, u32>>, i: int, done: Seq<u32>) -> bool {
    if forwards_into(func, i) {
        exists|p: int| {
            &&& 0 <= p < func.blocks.len()
            &&& func.blocks[p].id == sole_predecessor(func, func.blocks[i].id)->0
            &&& #[trigger] rewritten(func, p)
            &&& done.contains(func.blocks[p].id)
            &&& start[i] == cse_env_from(func.blocks[p].stmts@, func.blocks[p].stmts@.len(), start[p])
        }
    } else {
        start[i] == Map::<u128, u32>::empty()
    }
}

/// `out` keeps the entry and every block id of `func`; each rewritten block
/// holds its statements after CSE started from its table, every other block
/// keeps its statements, and a table passes exactly from a sole predecessor
/// (which is the block's immediate dominator) to its successor.
pub open spec fn cse_per_block(func: Function, out: Function) -> bool {
    &&& out.entry == func.entry
    &&& out.blocks.len() == func.blocks.len()
    &&& forall|i: int| 0 <= i < func.blocks.len() ==> (#[trigger] out.blocks[i]).id == func.blocks[i].id
    &&& exists|start: Seq<Map<u128, u32>>| {
        &&& start.len() == func.blocks.len()
        &&& forall|i: int| 0 <= i < func.blocks.len() ==> {
            if #[trigger] rewritten(func, i) {
                &&& out.blocks[i].stmts@ == cse_block_from(func.blocks[i].stmts@, start[i])
                &&& forwarded_table(func, start, i)
            } else {
                out.blocks[i].stmts@ == func.blocks[i].stmts@
            }
        }
    }
}

/// The edges `(successor, block)` of all blocks, in block order.
pub(crate) fn collect_edges(func: &Function) -> (edges: Vec<(u32, u32)>)
    ensures
        edges@ == cfg_edges(*func),
{
    let n = func.blocks.len();
    let mut edges: Vec<(u32, u32)> = Vec::new();
    proof {
        reveal_with_fuel(edges_upto, 1);
    }
    let mut bi: usize = 0;
    while bi < n
        invariant
            bi <= n,
            n == func.blocks.len(),
            edges@ == edges_upto(*func, bi as nat),
        decreases n - bi,
    {
        let b = func.blocks[bi].id;
        let succs = successors(func, b);
        let ghost base = edges@;
        let mut k: usize = 0;
        while k < succs.len()
            invariant
                k <= succs.len(),
                edges@ == base + succs@.take(k as int).map_values(|s: u32| (s, b)),
            decreases succs.len() - k,
        {
            edges.push((succs[k], b));
            k = k + 1;
            proof {
                assert(edges@ =~= base + succs@.take(k as int).map_values(|s: u32| (s, b)));
            }
        }
        proof {
            reveal_with_fuel(edges_upto, 2);
            assert(succs@.take(k as int) =~= succs@);
            assert(edges@ =~= edges_upto(*func, (bi + 1) as nat));
        }
        bi = bi + 1;
    }
    edges
}

/// How many edges enter `b`, and the source of the first one.
fn count_into(edges: &Vec<(u32, u32)>, b: u32) -> (r: (usize, u32))
    ensures
        r.0 == in_count(edges@, b, edges@.len()),
        r.0 > 0 ==> r.1 == first_in(edges@, b, edges@.len()),
{
    let mut count: usize = 0;
    let mut first: u32 = 0;
    let mut e: usize = 0;
    while e < edges.len()
        invariant
            e <= edges.len(),
            count <= e,
            count == in_count(edges@, b, e as nat),
            count > 0 ==> first == first_in(edges@, b, e as nat),
        decreases edges.len() - e,
    {
        if edges[e].0 == b {
            if count == 0 {
                first = edges[e].1;
            }
            count = count + 1;
        }
        e = e + 1;
    }
    (count, first)
}

/// Map from each block id to the position of the last block with that id.
pub(crate) fn last_positions(func: &Function) -> (idx: HashMap<u32, usize>)
    ensures
        forall|k: u32| #[trigger] idx@.contains_key(k) ==> {
            &&& idx@[k] < func.blocks.len()
            &&& func.blocks@[idx@[k] as int].id == k
            &&& last_with_id(*func, idx@[k] as int)
        },
        forall|m: int| 0 <= m < func.blocks.len() ==> idx@.contains_key(#[trigger] func.blocks@[m].id),
{
    let n = func.blocks.len();
    let mut idx: HashMap<u32, usize> = HashMap::new();
    let mut i: usize = 0;
    while i < n
        invariant
            i <= n,
            n == func.blocks.len(),
            forall|k: u32| #[trigger] idx@.contains_key(k) ==> {
                &&& idx@[k] < i
                &&& func.blocks@[idx@[k] as int].id == k
                &&& forall|m: int| idx@[k] < m < i ==> #[trigger] func.blocks@[m].id != k
            },
            forall|m: int| 0 <= m < i ==> idx@.contains_key(#[trigger] func.blocks@[m].id),
        decreases n - i,
    {
        idx.insert(func.blocks[i].id, i);
        i = i + 1;
    }
    idx
}

/// `e` lists the CFG edges of `func`.
#[verifier::opaque]
spec fn lists_edges(func: Function, e: Seq<(u32, u32)>) -> bool {
    e == cfg_edges(func)
}

/// `po` lists the blocks reachable from the entry, in depth-first postorder.
#[verifier::opaque]
spec fn is_postorder(func: Function, po: Seq<u32>) -> bool {
    po == reachable_order(func)
}

/// Block `j` is the last block with an id among `po[r..]`.
spec fn done_at(func: Function, po: Seq<u32>, idx: Map<u32, usize>, r: int, j: int) -> bool {
    exists|q: int| r <= q < po.len() && #[trigger] po[q] == func.blocks[j].id && idx[po[q]] == j
}

/// Block `j` of `blocks` keeps its id; once done it holds its statements
/// after CSE from `starts[j]`, forwarded as `forwarded_within` says, and
/// before that its statements are untouched.
#[verifier::opaque]
spec fn block_state(
    func: Function,
    po: Seq<u32>,
    idx: Map<u32, usize>,
    r: int,
    blocks: Seq<BasicBlock>,
    starts: Seq<Map<u128, u32>>,
    j: int,
) -> bool {
    &&& blocks[j].id == func.blocks[j].id
    &&& if done_at(func, po, idx, r, j) {
        &&& blocks[j].stmts@ == cse_block_from(func.blocks[j].stmts@, starts[j])
        &&& forwarded_within(func, starts, j, po.subrange(r, po.len() as int))
    } else {
        blocks[j].stmts@ == func.blocks[j].stmts@
    }
}

/// What the positions map of `last_positions` gives.
spec fn positions_ok(func: Function, idx: Map<u32, usize>) -> bool {
    &&& forall|k: u32| #[trigger] idx.contains_key(k) ==> {
        &&& idx[k] < func.blocks.len()
        &&& func.blocks@[idx[k] as int].id == k
        &&& last_with_id(func, idx[k] as int)
    }
    &&& forall|m: int| 0 <= m < func.blocks.len() ==> idx.contains_key(#[trigger] func.blocks@[m].id)
}

proof fn lemma_not_done(func: Function, po: Seq<u32>, idx: Map<u32, usize>, r: int, pos: int)
    requires
        0 <= r < po.len(),
        po.no_duplicates(),
        positions_ok(func, idx),
        idx.contains_key(po[r]),
        idx[po[r]] == pos,
    ensures
        !done_at(func, po, idx, r + 1, pos),
        func.blocks[pos].id == po[r],
{
    if done_at(func, po, idx, r + 1, pos) {
        let q = choose|q: int| r + 1 <= q < po.len() && #[trigger] po[q] == func.blocks[pos].id && idx[po[q]] == pos;
        assert(po[q] == po[r]);
    }
}

proof fn lemma_step(
    func: Function,
    po: Seq<u32>,
    idx: Map<u32, usize>,
    r: int,
    pos: int,
    env0: Map<u128, u32>,
    old_starts: Seq<Map<u128, u32>>,
    before: Seq<BasicBlock>,
    after: Seq<BasicBlock>,
)
    requires
        0 <= r < po.len(),
        po.no_duplicates(),
        positions_ok(func, idx),
        idx.contains_key(po[r]),
        idx[po[r]] == pos,
        0 <= pos < func.blocks.len(),
        old_starts.len() == func.blocks.len(),
        before.len() == func.blocks.len(),
        after.len() == func.blocks.len(),
        forall|j: int| 0 <= j < func.blocks.len() && j != pos ==> after[j] == before[j],
        after[pos].id == func.blocks[pos].id,
        after[pos].stmts@ == cse_block_from(func.blocks[pos].stmts@, env0),
        forwarded_within(func, old_starts.update(pos, env0), pos, po.subrange(r, po.len() as int)),
        forall|j: int| 0 <= j < func.blocks.len() ==> #[trigger] block_state(func, po, idx, r + 1, before, old_starts, j),
    ensures
        forall|j: int| 0 <= j < func.blocks.len() ==> #[trigger] block_state(func, po, idx, r, after, old_starts.update(pos, env0), j),
{
    reveal(block_state);
    let starts = old_starts.update(pos, env0);
    let done = po.subrange(r, po.len() as int);
    let done_before = po.subrange(r + 1, po.len() as int);
    assert forall|x: u32| done_before.contains(x) implies done.contains(x) by {
        let k = choose|k: int| 0 <= k < done_before.len() && done_before[k] == x;
        assert(done[k + 1] == x);
    }
    assert forall|j: int| 0 <= j < func.blocks.len() implies #[trigger] block_state(func, po, idx, r, after, starts, j) by {
        if j == pos {
            assert(po[r] == func.blocks[j].id && idx[po[r]] == j);
            assert(done_at(func, po, idx, r, j));
        } else {
            assert(block_state(func, po, idx, r + 1, before, old_starts, j));
            assert(starts[j] == old_starts[j]);
            if done_at(func, po, idx, r, j) {
                let q = choose|q: int| r <= q < po.len() && #[trigger] po[q] == func.blocks[j].id && idx[po[q]] == j;
                assert(q != r);
                assert(done_at(func, po, idx, r + 1, j));
                if forwards_into(func, j) {
                    let p = choose|p: int| {
                        &&& 0 <= p < func.blocks.len()
                        &&& func.blocks[p].id == sole_predecessor(func, func.blocks[j].id)->0
                        &&& #[trigger] rewritten(func, p)
                        &&& done_before.contains(func.blocks[p].id)
                        &&& old_starts[j] == cse_env_from(func.blocks[p].stmts@, func.blocks[p].stmts@.len(), old_starts[p])
                    };
                    assert(p != pos) by {
                        if p == pos {
                            let k = choose|k: int| 0 <= k < done_before.len() && done_before[k] == func.blocks[p].id;
                            assert(po[r + 1 + k] == po[r]);
                        }
                    }
                    assert(starts[p] == old_starts[p]);
                    assert(done.contains(func.blocks[p].id));
                }
            } else {
                if done_at(func, po, idx, r + 1, j) {
                    let q = choose|q: int| r + 1 <= q < po.len() && #[trigger] po[q] == func.blocks[j].id && idx[po[q]] == j;
                    assert(done_at(func, po, idx, r, j));
                }
            }
        }
    }
}

/// With no block named by the entry, nothing is reachable and the function
/// is left as it is.
proof fn lemma_unchanged(func: Function)
    requires
        !is_block_id(func, func.entry),
    ensures
        cse_per_block(func, func),
{
    reveal(rewritten);
    assert(reachable_order(func) =~= Seq::<u32>::empty());
    let st = Seq::new(func.blocks.len() as nat, |i: int| Map::<u128, u32>::empty());
    assert forall|i: int| 0 <= i < func.blocks.len() implies !#[trigger] rewritten(func, i) by {}
    assert(st.len() == func.blocks.len());
}

proof fn lemma_rewritten(func: Function, i: int)
    ensures
        rewritten(func, i) <==> (reachable_order(func).contains(func.blocks[i].id) && last_with_id(func, i)),
{
    reveal(rewritten);
}

/// Block `i`, done once every block in `po` is, meets its clause of
/// `cse_per_block`.
proof fn lemma_finish_one(func: Function, po: Seq<u32>, idx: Map<u32, usize>, starts: Seq<Map<u128, u32>>, blocks: Seq<BasicBlock>, i: int)
    requires
        is_postorder(func, po),
        positions_ok(func, idx),
        0 <= i < func.blocks.len(),
        block_state(func, po, idx, 0, blocks, starts, i),
    ensures
        blocks[i].id == func.blocks[i].id,
        if rewritten(func, i) {
            &&& blocks[i].stmts@ == cse_block_from(func.blocks[i].stmts@, starts[i])
            &&& forwarded_table(func, starts, i)
        } else {
            blocks[i].stmts@ == func.blocks[i].stmts@
        },
{
    reveal(block_state);
    reveal(is_postorder);
    lemma_rewritten(func, i);
    let id = func.blocks[i].id;
    if rewritten(func, i) {
        assert(po.contains(id));
        let q = choose|q: int| 0 <= q < po.len() && po[q] == id;
        assert(idx.contains_key(func.blocks@[i].id));
        let k = idx[id] as int;
        assert(k == i) by {
            if k < i {
                assert(func.blocks[i].id != func.blocks[k].id);
            } else if k > i {
                assert(func.blocks[k].id != func.blocks[i].id);
            }
        }
        assert(done_at(func, po, idx, 0, i));
        if forwards_into(func, i) {
            let p = choose|p: int| {
                &&& 0 <= p < func.blocks.len()
                &&& func.blocks[p].id == sole_predecessor(func, func.blocks[i].id)->0
                &&& #[trigger] rewritten(func, p)
                &&& po.subrange(0, po.len() as int).contains(func.blocks[p].id)
                &&& starts[i] == cse_env_from(func.blocks[p].stmts@, func.blocks[p].stmts@.len(), starts[p])
            };
            assert(forwarded_table(func, starts, i));
        }
    } else {
        if done_at(func, po, idx, 0, i) {
            let q = choose|q: int| 0 <= q < po.len() && #[trigger] po[q] == func.blocks[i].id && idx[po[q]] == i;
            assert(po.contains(func.blocks[i].id));
        }
    }
}

/// Once every block in `po` is done, the blocks meet `cse_per_block`.
proof fn lemma_finish(func: Function, po: Seq<u32>, idx: Map<u32, usize>, starts: Seq<Map<u128, u32>>, out: Function)
    requires
        is_postorder(func, po),
        positions_ok(func, idx),
        starts.len() == func.blocks.len(),
        out.blocks.len() == func.blocks.len(),
        out.entry == func.entry,
        forall|j: int| 0 <= j < func.blocks.len() ==> #[trigger] block_state(func, po, idx, 0, out.blocks@, starts, j),
    ensures
        cse_per_block(func, out),
{
    assert forall|i: int| 0 <= i < func.blocks.len() implies {
        &&& (#[trigger] out.blocks[i]).id == func.blocks[i].id
        &&& if rewritten(func, i) {
            &&& out.blocks[i].stmts@ == cse_block_from(func.blocks[i].stmts@, starts[i])
            &&& forwarded_table(func, starts, i)
        } else {
            out.blocks[i].stmts@ == func.blocks[i].stmts@
        }
    } by {
        lemma_finish_one(func, po, idx, starts, out.blocks@, i);
    }
    assert forall|i: int| 0 <= i < func.blocks.len() implies {
        if #[trigger] rewritten(func, i) {
            &&& out.blocks[i].stmts@ == cse_block_from(func.blocks[i].stmts@, starts[i])
            &&& forwarded_table(func, starts, i)
        } else {
            out.blocks[i].stmts@ == func.blocks[i].stmts@
        }
    } by {
        assert(out.blocks[i].id == func.blocks[i].id);
    }
}

/// Every table in `t` belongs to a block id among `po[r..]` and is the table
/// at the end of its last block after CSE from that block's start.
#[verifier::opaque]
spec fn tables_ok(
    func: Function,
    po: Seq<u32>,
    idx: Map<u32, usize>,
    r: int,
    t: Map<u32, HashMap<u128, u32>>,
    starts: Seq<Map<u128, u32>>,
) -> bool {
    &&& forall|b: u32| #[trigger] t.contains_key(b) ==> {
        &&& idx.contains_key(b)
        &&& exists|q: int| r <= q < po.len() && #[trigger] po[q] == b
        &&& t[b]@ == cse_env_from(func.blocks[idx[b] as int].stmts@, func.blocks[idx[b] as int].stmts@.len(), starts[idx[b] as int])
    }
    &&& forall|q: int| r <= q < po.len() ==> t.contains_key(#[trigger] po[q])
}

proof fn lemma_tables_step(
    func: Function,
    po: Seq<u32>,
    idx: Map<u32, usize>,
    r: int,
    pos: int,
    t: Map<u32, HashMap<u128, u32>>,
    seen: HashMap<u128, u32>,
    old_starts: Seq<Map<u128, u32>>,
    env0: Map<u128, u32>,
)
    requires
        0 <= r < po.len(),
        po.no_duplicates(),
        positions_ok(func, idx),
        idx.contains_key(po[r]),
        idx[po[r]] == pos,
        tables_ok(func, po, idx, r + 1, t, old_starts),
        old_starts.len() == func.blocks.len(),
        seen@ == cse_env_from(func.blocks[pos].stmts@, func.blocks[pos].stmts@.len(), env0),
    ensures
        tables_ok(func, po, idx, r, t.insert(po[r], seen), old_starts.update(pos, env0)),
{
    reveal(tables_ok);
    let starts = old_starts.update(pos, env0);
    let t2 = t.insert(po[r], seen);
    assert forall|b: u32| #[trigger] t2.contains_key(b) implies {
        &&& idx.contains_key(b)
        &&& exists|q: int| r <= q < po.len() && #[trigger] po[q] == b
        &&& t2[b]@ == cse_env_from(func.blocks[idx[b] as int].stmts@, func.blocks[idx[b] as int].stmts@.len(), starts[idx[b] as int])
    } by {
        if b == po[r] {
            assert(po[r] == b);
        } else {
            assert(t.contains_key(b));
            let q = choose|q: int| r + 1 <= q < po.len() && #[trigger] po[q] == b;
            assert(po[q] != po[r]);
            assert(idx[b] as int != pos);
        }
    }
    assert forall|q: int| r <= q < po.len() implies t2.contains_key(#[trigger] po[q]) by {
        if q != r {
            assert(t.contains_key(po[q]));
        }
    }
}

/// The table block `pos` (the last block with id `po[r]`) starts from is
/// forwarded as `forwarded_within` says.
proof fn lemma_forward_pos(
    func: Function,
    po: Seq<u32>,
    idx: Map<u32, usize>,
    r: int,
    pos: int,
    src: int,
    old_starts: Seq<Map<u128, u32>>,
    env0: Map<u128, u32>,
)
    requires
        0 <= r < po.len(),
        po.no_duplicates(),
        is_postorder(func, po),
        positions_ok(func, idx),
        idx.contains_key(po[r]),
        idx[po[r]] == pos,
        old_starts.len() == func.blocks.len(),
        src < 0 ==> env0 == Map::<u128, u32>::empty(),
        src >= 0 <==> (po[r] != func.entry && sole_predecessor(func, po[r]) is Some),
        src >= 0 ==> {
            &&& src < func.blocks.len()
            &&& sole_predecessor(func, po[r]) == Some(func.blocks[src].id)
            &&& idx.contains_key(func.blocks[src].id)
            &&& idx[func.blocks[src].id] == src
            &&& exists|q: int| r + 1 <= q < po.len() && #[trigger] po[q] == func.blocks[src].id
            &&& env0 == cse_env_from(func.blocks[src].stmts@, func.blocks[src].stmts@.len(), old_starts[src])
        },
    ensures
        forwarded_within(func, old_starts.update(pos, env0), pos, po.subrange(r, po.len() as int)),
{
    reveal(is_postorder);
    let starts = old_starts.update(pos, env0);
    let done = po.subrange(r, po.len() as int);
    assert(func.blocks@[pos].id == po[r]);
    if src >= 0 {
        let first = func.blocks[src].id;
        let q = choose|q: int| r + 1 <= q < po.len() && #[trigger] po[q] == first;
        assert(done[q - r] == first);
        assert(po[q] != po[r]);
        assert(src != pos);
        assert(po.contains(first));
        lemma_rewritten(func, src);
        assert(starts[src] == old_starts[src]);
    }
}

/// The table that block `po[r]` starts from: the table at the end of its
/// sole predecessor when that is also its immediate dominator and is done,
/// else an empty one. `src` is the position of the predecessor's block, or
/// negative for an empty table.
fn start_table(
    edges: &Vec<(u32, u32)>,
    idoms: &HashMap<u32, u32>,
    end_table: &HashMap<u32, HashMap<u128, u32>>,
    block_id: u32,
    entry: u32,
    Ghost(func): Ghost<Function>,
    Ghost(po): Ghost<Seq<u32>>,
    Ghost(idx): Ghost<Map<u32, usize>>,
    Ghost(r): Ghost<int>,
    Ghost(starts): Ghost<Seq<Map<u128, u32>>>,
) -> (res: (HashMap<u128, u32>, Ghost<int>))
    requires
        lists_edges(func, edges@),
        positions_ok(func, idx),
        tables_ok(func, po, idx, r + 1, end_table@, starts),
        0 <= r < po.len(),
        po[r] == block_id,
        entry == func.entry,
        po.no_duplicates(),
        po.last() == func.entry,
        forall|i: int| 0 <= i < po.len() ==> is_block_id(func, #[trigger] po[i]),
        forall|i: int| 0 <= i < po.len() - 1 ==> has_parent(func, po, i),
        idoms@.contains_key(block_id),
        forall|k: u32| idoms@.contains_key(k) && k != func.entry && (#[trigger] sole_predecessor(func, k)) is Some
            ==> idoms@[k] == sole_predecessor(func, k)->0,
    ensures
        res.1@ >= 0 <==> (po[r] != func.entry && sole_predecessor(func, po[r]) is Some),
        res.1@ < 0 ==> res.0@ == Map::<u128, u32>::empty(),
        res.1@ >= 0 ==> {
            &&& res.1@ < func.blocks.len()
            &&& po[r] != func.entry
            &&& sole_predecessor(func, po[r]) == Some(func.blocks[res.1@].id)
            &&& idx.contains_key(func.blocks[res.1@].id)
            &&& idx[func.blocks[res.1@].id] == res.1@
            &&& exists|q: int| r + 1 <= q < po.len() && #[trigger] po[q] == func.blocks[res.1@].id
            &&& res.0@ == cse_env_from(func.blocks[res.1@].stmts@, func.blocks[res.1@].stmts@.len(), starts[res.1@])
        },
{
    proof {
        reveal(lists_edges);
        reveal(tables_ok);
        if block_id != entry && sole_predecessor(func, block_id) is Some {
            assert(r != po.len() - 1);
            assert(has_parent(func, po, r));
            let pp = choose|pp: int| r < pp < po.len() && #[trigger] spec_successors(func, po[pp]).contains(po[r]);
            assert(is_block_id(func, po[pp]));
            lemma_sole_pred(func, block_id, po[pp]);
            assert(end_table@.contains_key(po[pp]));
            reveal(sole_predecessor);
        }
    }
    if block_id != entry {
        let (count, first) = count_into(edges, block_id);
        if count == 1 {
            if let Some(d) = idoms.get(&block_id) {
                if *d == first {
                    if let Some(t) = end_table.get(&first) {
                        let seen = t.clone();
                        proof {
                            reveal(sole_predecessor);
                            assert(end_table@.contains_key(first));
                        }
                        return (seen, Ghost(idx[first] as int));
                    }
                }
            }
        }
    }
    (HashMap::new(), Ghost(-1))
}

/// Dominator-tree-forwarded CSE over the whole function.

pub fn global_cse(func: Function) -> (out: Function)
    ensures
        cse_per_block(func, out),
{
    reveal(rewritten);
    reveal(block_state);
    let n = func.blocks.len();
    let ghost fg = func;
    let ghost orig = func.blocks@;
    if n == 0 {
        proof {
            lemma_unchanged(func);
        }
        return func;
    }
    let idx = last_positions(&func);
    // CFG edges as (successor, predecessor), in block order.
    let edges = collect_edges(&func);
    let idoms = dominators(&func);
    if !idx.contains_key(&func.entry) {
        proof {
            assert(!is_block_id(func, func.entry)) by {
                if is_block_id(func, func.entry) {
                    let m = choose|m: int| 0 <= m < func.blocks.len() && func.blocks[m].id == func.entry;
                    assert(idx@.contains_key(func.blocks@[m].id));
                }
            }
            lemma_unchanged(func);
        }
        return func;
    }
    // Visited in reverse postorder: each block after its dominators.
    let po = postorder(&func);
    let Function { blocks, entry } = func;
    let mut blocks = blocks;
    let mut end_table: HashMap<u32, HashMap<u128, u32>> = HashMap::new();
    proof {
        reveal(tables_ok);
    }
    let ghost mut starts: Seq<Map<u128, u32>> = Seq::new(n as nat, |i: int| Map::<u128, u32>::empty());
    proof {
        reveal(is_postorder);
        reveal(lists_edges);
        assert forall|i: int| 0 <= i < po@.len() implies idoms@.contains_key(#[trigger] po@[i]) by {
            assert(po@.contains(po@[i]));
        }
    }
    let mut r = po.len();
    while r > 0
        invariant
            r <= po.len(),
            is_postorder(fg, po@),
            po@.no_duplicates(),
            po@.len() > 0,
            po@.last() == fg.entry,
            forall|i: int| 0 <= i < po@.len() - 1 ==> has_parent(fg, po@, i),
            forall|i: int| 0 <= i < po@.len() ==> idoms@.contains_key(#[trigger] po@[i]),
            forall|k: u32| idoms@.contains_key(k) && k != fg.entry && (#[trigger] sole_predecessor(fg, k)) is Some
                ==> idoms@[k] == sole_predecessor(fg, k)->0,
            forall|i: int| 0 <= i < po@.len() ==> is_block_id(fg, #[trigger] po@[i]),
            lists_edges(fg, edges@),
            blocks.len() == n,
            orig == fg.blocks@,
            orig.len() == n,
            entry == fg.entry,
            starts.len() == n,
            positions_ok(fg, idx@),
            tables_ok(fg, po@, idx@, r as int, end_table@, starts),
            forall|j: int| 0 <= j < n ==> #[trigger] block_state(fg, po@, idx@, r as int, blocks@, starts, j),
        decreases r,
    {
        r = r - 1;
        let block_id = po[r];
        let (mut seen, Ghost(src)) = start_table(
            &edges,
            &idoms,
            &end_table,
            block_id,
            entry,
            Ghost(fg),
            Ghost(po@),
            Ghost(idx@),
            Ghost(r as int),
            Ghost(starts),
        );
        proof {
            assert(idx@.contains_key(block_id)) by {
                assert(is_block_id(fg, po@[r as int]));
                let m = choose|m: int| 0 <= m < fg.blocks.len() && fg.blocks[m].id == block_id;
                assert(idx@.contains_key(orig[m].id));
            }
        }
        let pos = match idx.get(&block_id) {
            Some(p) => *p,
            None => 0,
        };
        proof {
            lemma_not_done(fg, po@, idx@, r as int, pos as int);
            assert(block_state(fg, po@, idx@, r + 1, blocks@, starts, pos as int));
            assert(blocks@[pos as int].stmts@ == orig[pos as int].stmts@ && blocks@[pos as int].id == orig[pos as int].id) by {
                reveal(block_state);
            }
        }
        let ghost env0 = seen@;
        let ghost before = blocks@;
        let ghost old_starts = starts;
        let blk = blocks.remove(pos);
        let BasicBlock { id, stmts } = blk;
        let new_stmts = cse_stmts(stmts, &mut seen);
        blocks.insert(pos, BasicBlock { id, stmts: new_stmts });
        proof {
            lemma_forward_pos(fg, po@, idx@, r as int, pos as int, src, old_starts, env0);
            starts = starts.update(pos as int, env0);
            assert(blocks@ =~= before.update(pos as int, blocks@[pos as int]));
            lemma_step(fg, po@, idx@, r as int, pos as int, env0, old_starts, before, blocks@);
            lemma_tables_step(fg, po@, idx@, r as int, pos as int, end_table@, seen, old_starts, env0);
        }
        end_table.insert(block_id, seen);
    }
    let out = Function { blocks, entry };
    proof {
        lemma_finish(fg, po@, idx@, starts, out);
    }
    out
}

impl Pass for GlobalCse {
    fn name(&self) -> (r: &'static str)
        ensures
            r@ == "global_cse"@,
    {
        "global_cse"
    }

    fn run(&self, func: Function) -> (out: Function)
        ensures
            cse_per_block(func, out),
    {
        global_cse(func)
    }
}

} // verus!
