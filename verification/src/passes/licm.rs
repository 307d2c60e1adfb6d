//! Loop-invariant code motion.
//!
//! For each natural loop, hoist pure statements whose operands are all
//! defined outside the loop body into the loop's preheader (the unique
//! non-loop predecessor of the header). Re-scans to a fixed point per loop,
//! since a hoist can unlock further hoists.
//!
//! Conservative: skips a loop unless its header has exactly one outside
//! predecessor (no synthetic preheader insertion). Terminators are never
//! hoisted.

use std::collections::{HashMap, HashSet};

use vstd::multiset::Multiset;
use vstd::prelude::*;

use crate::ir::{op_reads, BasicBlock, Function, Op, Ref, Stmt};
use crate::passes::cfg::{cfg_edges, is_block_id, natural_loops, natural_loops_of, NaturalLoop};
use crate::passes::global_cse::{collect_edges, last_positions, last_with_id};
use crate::passes::dce::has_side_effect;
use crate::passes::Pass;

verus! {

broadcast use vstd::std_specs::hash::group_hash_axioms;

/// Ops that may be hoisted: side-effect-free, position-independent value
/// computations.
pub open spec fn spec_stmt_is_pure(op: Op) -> bool {
    match op {
        Op::Constant(_) | Op::LoadReg(_) | Op::LoadSegBase(_) | Op::BinOp(_) | Op::Compare(_)
        | Op::Extend(_) | Op::Truncate(_) => true,
        _ => false,
    }
}

fn stmt_is_pure(op: &Op) -> (r: bool)
    ensures
        r == spec_stmt_is_pure(*op),
{
    match op {
        Op::Constant(_) | Op::LoadReg(_) | Op::LoadSegBase(_) | Op::BinOp(_) | Op::Compare(_)
        | Op::Extend(_) | Op::Truncate(_) => true,
        _ => false,
    }
}

/// The operand refs of a hoistable op.
pub open spec fn spec_operand_refs(op: Op) -> Seq<Ref> {
    match op {
        Op::BinOp(x) => seq![x.lhs, x.rhs],
        Op::Compare(x) => seq![x.lhs, x.rhs],
        Op::Extend(x) => seq![x.value],
        Op::Truncate(x) => seq![x.value],
        _ => Seq::empty(),
    }
}

fn operand_refs(op: &Op, into: &mut Vec<Ref>)
    ensures
        final(into)@ == old(into)@ + spec_operand_refs(*op),
{
    match op {
        Op::BinOp(x) => {
            into.push(x.lhs);
            into.push(x.rhs);
        },
        Op::Compare(x) => {
            into.push(x.lhs);
            into.push(x.rhs);
        },
        Op::Extend(x) => into.push(x.value),
        Op::Truncate(x) => into.push(x.value),
        // Constant / LoadReg / LoadSegBase have no operand refs.
        _ => {},
    }
    proof {
        assert(final(into)@ =~= old(into)@ + spec_operand_refs(*op));
    }
}

/// Every statement of the blocks, counted with multiplicity.
pub open spec fn all_stmts(blocks: Seq<BasicBlock>) -> Multiset<Stmt>
    decreases blocks.len(),
{
    if blocks.len() == 0 {
        Multiset::empty()
    } else {
        all_stmts(blocks.drop_last()).add(blocks.last().stmts@.to_multiset())
    }
}

proof fn lemma_all_stmts_update(blocks: Seq<BasicBlock>, i: int, b: BasicBlock)
    requires
        0 <= i < blocks.len(),
    ensures
        all_stmts(blocks.update(i, b)).add(blocks[i].stmts@.to_multiset())
            == all_stmts(blocks).add(b.stmts@.to_multiset()),
    decreases blocks.len(),
{
    let u = blocks.update(i, b);
    if i == blocks.len() - 1 {
        assert(u.drop_last() =~= blocks.drop_last());
        assert(all_stmts(u).add(blocks[i].stmts@.to_multiset()) =~= all_stmts(blocks).add(b.stmts@.to_multiset()));
    } else {
        lemma_all_stmts_update(blocks.drop_last(), i, b);
        assert(u.drop_last() =~= blocks.drop_last().update(i, b));
        assert(u.last() == blocks.last());
        let l = blocks.last().stmts@.to_multiset();
        assert(all_stmts(u) == all_stmts(u.drop_last()).add(l));
        assert(all_stmts(blocks) == all_stmts(blocks.drop_last()).add(l));
        assert(blocks.drop_last()[i] == blocks[i]);
        let o = blocks[i].stmts@.to_multiset();
        let bb = b.stmts@.to_multiset();
        assert forall|y: Stmt| all_stmts(u).add(o).count(y) == all_stmts(blocks).add(bb).count(y) by {
            assert(all_stmts(u.drop_last()).add(o).count(y) == all_stmts(blocks.drop_last()).add(bb).count(y));
        }
        assert(all_stmts(u).add(o) =~= all_stmts(blocks).add(bb));
    }
}

proof fn lemma_block_len_le_all(blocks: Seq<BasicBlock>, i: int)
    requires
        0 <= i < blocks.len(),
    ensures
        blocks[i].stmts@.len() <= all_stmts(blocks).len(),
    decreases blocks.len(),
{
    broadcast use vstd::seq_lib::group_to_multiset_ensures;
    if i < blocks.len() - 1 {
        lemma_block_len_le_all(blocks.drop_last(), i);
    }
}

/// Whether a statement is not pure: it stays where it is.
pub open spec fn effect_pred() -> spec_fn(Stmt) -> bool {
    |st: Stmt| !spec_stmt_is_pure(st.op)
}

/// The statements of `s` that are not pure, in order.
pub open spec fn effects(s: Seq<Stmt>) -> Seq<Stmt> {
    s.filter(effect_pred())
}

proof fn lemma_effects_single(x: Stmt)
    requires
        spec_stmt_is_pure(x.op),
    ensures
        effects(seq![x]) == Seq::<Stmt>::empty(),
{
    let p = effect_pred();
    Seq::<Stmt>::empty().lemma_filter_push(x, p);
    assert(seq![x] =~= Seq::<Stmt>::empty().push(x));
    assert(Seq::<Stmt>::empty().filter(p) =~= Seq::<Stmt>::empty()) by {
        reveal(Seq::filter);
    }
}

/// Removing a pure statement keeps the effects.
proof fn lemma_effects_remove(s: Seq<Stmt>, i: int)
    requires
        0 <= i < s.len(),
        spec_stmt_is_pure(s[i].op),
    ensures
        effects(s.remove(i)) == effects(s),
{
    let p = effect_pred();
    let a = s.subrange(0, i);
    let b = s.subrange(i + 1, s.len() as int);
    let x = seq![s[i]];
    assert(s.remove(i) =~= a + b);
    assert(s =~= (a + x) + b);
    Seq::filter_distributes_over_add(a, b, p);
    Seq::filter_distributes_over_add(a + x, b, p);
    Seq::filter_distributes_over_add(a, x, p);
    lemma_effects_single(s[i]);
    assert(a.filter(p) + x.filter(p) =~= a.filter(p));
}

/// Inserting a pure statement keeps the effects.
proof fn lemma_effects_insert(s: Seq<Stmt>, k: int, x: Stmt)
    requires
        0 <= k <= s.len(),
        spec_stmt_is_pure(x.op),
    ensures
        effects(s.insert(k, x)) == effects(s),
{
    let p = effect_pred();
    let a = s.subrange(0, k);
    let b = s.subrange(k, s.len() as int);
    let xs = seq![x];
    assert(s.insert(k, x) =~= (a + xs) + b);
    assert(s =~= a + b);
    Seq::filter_distributes_over_add(a, b, p);
    Seq::filter_distributes_over_add(a + xs, b, p);
    Seq::filter_distributes_over_add(a, xs, p);
    lemma_effects_single(x);
    assert(a.filter(p) + xs.filter(p) =~= a.filter(p));
}

/// Every block of `blocks` has the effects of the same block of `orig`.
pub open spec fn effects_kept(orig: Seq<BasicBlock>, blocks: Seq<BasicBlock>) -> bool {
    forall|j: int| 0 <= j < orig.len() && j < blocks.len() ==> effects(#[trigger] blocks[j].stmts@) == effects(orig[j].stmts@)
}

/// `out` keeps the entry, the block ids, every statement (with
/// multiplicity), the last statement of every block of `func`, and the
/// statements of each block that are not pure, in their order: only pure
/// statements move.
pub open spec fn moves_only(func: Function, out: Function) -> bool {
    &&& out.entry == func.entry
    &&& out.blocks.len() == func.blocks.len()
    &&& all_stmts(out.blocks@) == all_stmts(func.blocks@)
    &&& effects_kept(func.blocks@, out.blocks@)
    &&& forall|i: int|
        0 <= i < func.blocks.len() ==> {
            &&& (#[trigger] out.blocks[i]).id == func.blocks[i].id
            &&& out.blocks[i].stmts@.len() == 0 <==> func.blocks[i].stmts@.len() == 0
            &&& func.blocks[i].stmts@.len() > 0 ==> out.blocks[i].stmts@.last() == func.blocks[i].stmts@.last()
        }
}

/// Position of the last block with id `id`.
pub open spec fn last_index(func: Function, id: u32) -> int {
    choose|i: int| 0 <= i < func.blocks.len() && func.blocks[i].id == id && last_with_id(func, i)
}

/// Number of edges `(h, p)` among the first `k` of `e` whose source `p` is
/// not in `body`.
pub open spec fn outside_in(e: Seq<(u32, u32)>, h: u32, body: Seq<u32>, k: nat) -> nat
    decreases k,
{
    if k == 0 || k > e.len() {
        0
    } else {
        outside_in(e, h, body, (k - 1) as nat) + if e[k - 1].0 == h && !body.contains(e[k - 1].1) { 1nat } else { 0nat }
    }
}

/// Source of the first such edge among the first `k`.
pub open spec fn first_outside(e: Seq<(u32, u32)>, h: u32, body: Seq<u32>, k: nat) -> u32
    decreases k,
{
    if k == 0 || k > e.len() {
        0
    } else if e[k - 1].0 == h && !body.contains(e[k - 1].1) && outside_in(e, h, body, (k - 1) as nat) == 0 {
        e[k - 1].1
    } else {
        first_outside(e, h, body, (k - 1) as nat)
    }
}

/// The preheader of `l`: the predecessor of its header outside its body,
/// when exactly one CFG edge comes from outside.
pub open spec fn preheader(func: Function, l: NaturalLoop) -> Option<u32> {
    let e = cfg_edges(func);
    if outside_in(e, l.header, l.body@, e.len()) == 1 {
        Some(first_outside(e, l.header, l.body@, e.len()))
    } else {
        None
    }
}

/// Statements are hoisted out of `l`: it has a preheader, a block with a
/// last statement that hoisted statements go before.
pub open spec fn hoists_out_of(func: Function, l: NaturalLoop) -> bool {
    &&& preheader(func, l) is Some
    &&& is_block_id(func, preheader(func, l)->0)
    &&& func.blocks[last_index(func, preheader(func, l)->0)].stmts.len() > 0
}

/// The refs that statements of the body blocks of `l` define, in `blocks`.
pub open spec fn body_defs(func: Function, blocks: Seq<BasicBlock>, l: NaturalLoop) -> Set<Ref> {
    Set::new(|r: Ref| exists|j: int, i: int|
        0 <= j < l.body.len() && 0 <= i < blocks[last_index(func, l.body@[j])].stmts.len()
            && #[trigger] blocks[last_index(func, l.body@[j])].stmts@[i].result == Some(r))
}

/// A pure statement with a result whose operands `defs` does not define.
pub open spec fn hoistable(st: Stmt, defs: Set<Ref>) -> bool {
    &&& st.result is Some
    &&& spec_stmt_is_pure(st.op)
    &&& forall|t: int| 0 <= t < spec_operand_refs(st.op).len() ==> !defs.contains(#[trigger] spec_operand_refs(st.op)[t])
}

/// No body block of `l` holds, before its last statement, a statement that
/// is hoistable given the refs `defs`.
pub open spec fn settled_by(func: Function, blocks: Seq<BasicBlock>, l: NaturalLoop, defs: Set<Ref>) -> bool {
    forall|j: int, i: int|
        0 <= j < l.body.len() && 0 <= i < blocks[last_index(func, l.body@[j])].stmts.len() - 1
        ==> !hoistable(#[trigger] blocks[last_index(func, l.body@[j])].stmts@[i], defs)
}

/// No body block of `l` holds, before its last statement, a pure statement
/// with a result whose operands are all defined outside the body.
pub open spec fn settled(func: Function, blocks: Seq<BasicBlock>, l: NaturalLoop) -> bool {
    settled_by(func, blocks, l, body_defs(func, blocks, l))
}

/// Of the loops `loops[..li]`: when none has a preheader, `blocks` are the
/// blocks of `func`; else the last one with a preheader is settled.
pub open spec fn last_loop_settled(func: Function, loops: Seq<NaturalLoop>, li: int, blocks: Seq<BasicBlock>) -> bool {
    if exists|l2: int| 0 <= l2 < li && #[trigger] hoists_out_of(func, loops[l2]) {
        exists|l2: int| {
            &&& 0 <= l2 < li
            &&& #[trigger] hoists_out_of(func, loops[l2])
            &&& settled(func, blocks, loops[l2])
            &&& forall|lj: int| l2 < lj < li ==> !#[trigger] hoists_out_of(func, loops[lj])
        }
    } else {
        blocks == func.blocks@
    }
}

/// The statement list of each block.
pub open spec fn stmt_lists(blocks: Seq<BasicBlock>) -> Seq<Seq<Stmt>> {
    blocks.map_values(|b: BasicBlock| b.stmts@)
}

/// The refs that the statements of the body blocks of `l` define in `ss`.
pub open spec fn defs_in(func: Function, ss: Seq<Seq<Stmt>>, l: NaturalLoop) -> Set<Ref> {
    Set::new(|r: Ref| exists|j: int, i: int|
        0 <= j < l.body.len() && 0 <= i < ss[last_index(func, l.body@[j])].len()
            && #[trigger] ss[last_index(func, l.body@[j])][i].result == Some(r))
}

/// The first position from `i` on, before the last statement of `s`, that
/// holds a statement hoistable given `refs`.
pub open spec fn first_hoistable(s: Seq<Stmt>, refs: Set<Ref>, i: int) -> Option<int>
    decreases s.len() - i,
{
    if i < 0 || i + 1 >= s.len() {
        None
    } else if hoistable(s[i], refs) {
        Some(i)
    } else {
        first_hoistable(s, refs, i + 1)
    }
}

/// A statement hoistable given `defs` reads no ref in `defs`: every operand
/// it reads is defined outside what `defs` holds; it has a result, no side
/// effect, and does not read memory.
pub proof fn law_hoistable_reads_outside(st: Stmt, defs: Set<Ref>)
    requires
        hoistable(st, defs),
    ensures
        st.result is Some,
        forall|r: Ref| #[trigger] op_reads(st.op, r) ==> !defs.contains(r),
        !has_side_effect(st.op),
        !(st.op is LoadMem || st.op is LoadMemTSO || st.op is WideDiv || st.op is Select),
{
    assert forall|r: Ref| #[trigger] op_reads(st.op, r) implies !defs.contains(r) by {
        let o = spec_operand_refs(st.op);
        if o.len() > 0 && r == o[0] {
            assert(!defs.contains(o[0]));
        } else {
            assert(o.len() > 1 && r == o[1]);
            assert(!defs.contains(o[1]));
        }
    }
}

/// The statement a drain moves first out of a body block reads no ref that
/// the refs still counted as defined in the loop body hold; when it is the
/// first move out of a loop, none that any of its body blocks defines.
pub proof fn law_first_moved_reads_outside(func: Function, ss: Seq<Seq<Stmt>>, l: NaturalLoop, refs: Set<Ref>, b: int, h: int)
    requires
        0 <= b < ss.len(),
        first_hoistable(ss[b], refs, 0) == Some(h),
    ensures
        0 <= h < ss[b].len() - 1,
        ss[b][h].result is Some,
        forall|r: Ref| #[trigger] op_reads(ss[b][h].op, r) ==> !refs.contains(r),
        refs == defs_in(func, ss, l) ==> forall|r: Ref| #[trigger] op_reads(ss[b][h].op, r)
            ==> !defs_in(func, ss, l).contains(r),
{
    lemma_first_hoistable(ss[b], refs, 0);
    law_hoistable_reads_outside(ss[b][h], refs);
}

proof fn lemma_first_hoistable(s: Seq<Stmt>, refs: Set<Ref>, i: int)
    requires
        first_hoistable(s, refs, i) is Some,
    ensures
        i <= first_hoistable(s, refs, i)->0 < s.len() - 1,
        0 <= i,
        hoistable(s[first_hoistable(s, refs, i)->0], refs),
    decreases s.len() - i,
{
    if !(i < 0 || i + 1 >= s.len()) && !hoistable(s[i], refs) {
        lemma_first_hoistable(s, refs, i + 1);
    }
}

/// `ss` with statement `h` of block `b` moved to just before the last
/// statement of block `p`.
pub open spec fn moved_to(ss: Seq<Seq<Stmt>>, b: int, h: int, p: int) -> Seq<Seq<Stmt>> {
    let x = ss[b][h];
    ss.update(b, ss[b].remove(h)).update(p, ss[p].insert(ss[p].len() - 1, x))
}

/// Hoist from block `b` to the preheader block `p` the first hoistable
/// statement, again and again until none is left; a hoisted result is no
/// longer counted among `refs`. Also says whether anything moved.
pub open spec fn drain(ss: Seq<Seq<Stmt>>, refs: Set<Ref>, b: int, p: int) -> (Seq<Seq<Stmt>>, Set<Ref>, bool)
    decreases ss[b].len(),
{
    if !(0 <= b < ss.len() && 0 <= p < ss.len() && b != p && ss[p].len() > 0) {
        (ss, refs, false)
    } else {
        match first_hoistable(ss[b], refs, 0) {
            None => (ss, refs, false),
            Some(h) => if 0 <= h < ss[b].len() {
                let refs2 = match ss[b][h].result {
                    Some(r) => refs.remove(r),
                    None => refs,
                };
                let d = drain(moved_to(ss, b, h, p), refs2, b, p);
                (d.0, d.1, true)
            } else {
                (ss, refs, false)
            },
        }
    }
}

/// One round over the body blocks `body[q..]`, draining each into the
/// preheader block `p`. Also says whether anything moved.
pub open spec fn round(func: Function, ss: Seq<Seq<Stmt>>, refs: Set<Ref>, body: Seq<u32>, q: int, p: int) -> (Seq<Seq<Stmt>>, Set<Ref>, bool)
    decreases body.len() - q,
{
    if q < 0 || q >= body.len() {
        (ss, refs, false)
    } else {
        let d = drain(ss, refs, last_index(func, body[q]), p);
        let r = round(func, d.0, d.1, body, q + 1, p);
        (r.0, r.1, d.2 || r.2)
    }
}

/// Rounds over the body of `l` until one moves nothing (at most `fuel`).
pub open spec fn rounds(func: Function, ss: Seq<Seq<Stmt>>, refs: Set<Ref>, l: NaturalLoop, p: int, fuel: nat) -> Seq<Seq<Stmt>>
    decreases fuel,
{
    if fuel == 0 {
        ss
    } else {
        let r = round(func, ss, refs, l.body@, 0, p);
        if r.2 {
            rounds(func, r.0, r.1, l, p, (fuel - 1) as nat)
        } else {
            r.0
        }
    }
}

/// The blocks after processing loop `l`: when it has a preheader, rounds
/// of hoisting into it, starting from the refs its body defines; a round
/// moves at least one statement, so one more round than there are
/// statements reaches the fixed point.
pub open spec fn after_loop(func: Function, ss: Seq<Seq<Stmt>>, l: NaturalLoop) -> Seq<Seq<Stmt>> {
    if hoists_out_of(func, l) {
        rounds(func, ss, defs_in(func, ss, l), l, last_index(func, preheader(func, l)->0), all_stmts(func.blocks@).len() + 1)
    } else {
        ss
    }
}

/// The blocks after processing the loops `loops[li..]` in order.
pub open spec fn licm_from(func: Function, loops: Seq<NaturalLoop>, li: int, ss: Seq<Seq<Stmt>>) -> Seq<Seq<Stmt>>
    decreases loops.len() - li,
{
    if li < 0 || li >= loops.len() {
        ss
    } else {
        licm_from(func, loops, li + 1, after_loop(func, ss, loops[li]))
    }
}

/// Block position `k` holds a body block of `l`.
pub open spec fn in_body(func: Function, l: NaturalLoop, k: int) -> bool {
    exists|j: int| 0 <= j < l.body.len() && last_index(func, l.body@[j]) == k
}

/// From `before` to `after`, only the preheader block `p` and the body
/// blocks of `l` changed, and the preheader kept all its statements but the
/// last as a prefix and its last statement last.
pub open spec fn placed(func: Function, l: NaturalLoop, p: int, before: Seq<Seq<Stmt>>, after: Seq<Seq<Stmt>>) -> bool {
    &&& after.len() == before.len()
    &&& forall|k: int| 0 <= k < before.len() && k != p && !in_body(func, l, k) ==> #[trigger] after[k] == before[k]
    &&& 0 <= p < before.len() && before[p].len() > 0 ==> {
        &&& after[p].len() >= before[p].len()
        &&& after[p].take(before[p].len() - 1) == before[p].take(before[p].len() - 1)
        &&& after[p].last() == before[p].last()
    }
}

proof fn lemma_placed_trans(func: Function, l: NaturalLoop, p: int, a: Seq<Seq<Stmt>>, b: Seq<Seq<Stmt>>, c: Seq<Seq<Stmt>>)
    requires
        placed(func, l, p, a, b),
        placed(func, l, p, b, c),
    ensures
        placed(func, l, p, a, c),
{
    if 0 <= p < a.len() && a[p].len() > 0 {
        let n = a[p].len() - 1;
        assert(c[p].take(n) =~= c[p].take(b[p].len() - 1).take(n));
        assert(b[p].take(n) =~= b[p].take(b[p].len() - 1).take(n));
    }
}

proof fn lemma_drain_placed(func: Function, l: NaturalLoop, ss: Seq<Seq<Stmt>>, refs: Set<Ref>, b: int, p: int)
    requires
        in_body(func, l, b),
    ensures
        placed(func, l, p, ss, drain(ss, refs, b, p).0),
    decreases ss[b].len(),
{
    if 0 <= b < ss.len() && 0 <= p < ss.len() && b != p && ss[p].len() > 0 {
        if let Some(h) = first_hoistable(ss[b], refs, 0) {
            if 0 <= h < ss[b].len() {
                let refs2 = match ss[b][h].result {
                    Some(r) => refs.remove(r),
                    None => refs,
                };
                let m = moved_to(ss, b, h, p);
                assert(m[b].len() < ss[b].len());
                lemma_drain_placed(func, l, m, refs2, b, p);
                let n = ss[p].len() - 1;
                assert(m[p].take(n) =~= ss[p].take(n));
                assert(placed(func, l, p, ss, m));
                lemma_placed_trans(func, l, p, ss, m, drain(m, refs2, b, p).0);
            }
        }
    }
}

proof fn lemma_round_placed(func: Function, l: NaturalLoop, ss: Seq<Seq<Stmt>>, refs: Set<Ref>, q: int, p: int)
    ensures
        placed(func, l, p, ss, round(func, ss, refs, l.body@, q, p).0),
    decreases l.body.len() - q,
{
    if 0 <= q < l.body.len() {
        let b = last_index(func, l.body@[q]);
        assert(in_body(func, l, b));
        let d = drain(ss, refs, b, p);
        lemma_drain_placed(func, l, ss, refs, b, p);
        lemma_round_placed(func, l, d.0, d.1, q + 1, p);
        lemma_placed_trans(func, l, p, ss, d.0, round(func, d.0, d.1, l.body@, q + 1, p).0);
    } else {
        if 0 <= p < ss.len() && ss[p].len() > 0 {
            assert(ss[p].take(ss[p].len() - 1) =~= ss[p].take(ss[p].len() - 1));
        }
    }
}

proof fn lemma_rounds_placed(func: Function, l: NaturalLoop, ss: Seq<Seq<Stmt>>, refs: Set<Ref>, p: int, fuel: nat)
    ensures
        placed(func, l, p, ss, rounds(func, ss, refs, l, p, fuel)),
    decreases fuel,
{
    if fuel == 0 {
        lemma_round_placed(func, l, ss, refs, l.body.len() as int, p);
    } else {
        let r = round(func, ss, refs, l.body@, 0, p);
        lemma_round_placed(func, l, ss, refs, 0, p);
        if r.2 {
            lemma_rounds_placed(func, l, r.0, r.1, p, (fuel - 1) as nat);
            lemma_placed_trans(func, l, p, ss, r.0, rounds(func, r.0, r.1, l, p, (fuel - 1) as nat));
        }
    }
}

/// Processing a loop with a preheader changes only its body blocks and its
/// preheader, and the preheader keeps all its statements but the last in
/// front and its last statement last: what is hoisted lands between them.
pub proof fn lemma_loop_changes_only_body_and_preheader(func: Function, ss: Seq<Seq<Stmt>>, l: NaturalLoop)
    requires
        hoists_out_of(func, l),
    ensures
        placed(func, l, last_index(func, preheader(func, l)->0), ss, after_loop(func, ss, l)),
{
    lemma_rounds_placed(func, l, ss, defs_in(func, ss, l), last_index(func, preheader(func, l)->0), all_stmts(func.blocks@).len() + 1);
}

/// `whole` is what the first steps, which moved something exactly when
/// `moved`, followed by `rest` give.
pub open spec fn continues(whole: (Seq<Seq<Stmt>>, Set<Ref>, bool), rest: (Seq<Seq<Stmt>>, Set<Ref>, bool), moved: bool) -> bool {
    &&& whole.0 == rest.0
    &&& whole.1 == rest.1
    &&& whole.2 == (moved || rest.2)
}

/// What LICM leaves: only pure statements moved; the statements of each
/// block are those that processing the natural loops of `func` in order
/// leaves, each hoisted statement inserted just before the last statement of
/// its loop's preheader; and, of those loops, the last one with a preheader
/// has nothing left to hoist (no loop with a preheader: nothing changed).
pub open spec fn licm_result(func: Function, out: Function) -> bool {
    &&& moves_only(func, out)
    &&& exists|loops: Seq<NaturalLoop>| natural_loops_of(func, loops)
        && stmt_lists(out.blocks@) == licm_from(func, loops, 0, stmt_lists(func.blocks@))
        && last_loop_settled(func, loops, loops.len() as int, out.blocks@)
}

proof fn lemma_last_index(func: Function, id: u32, k: int)
    requires
        0 <= k < func.blocks.len(),
        func.blocks[k].id == id,
        last_with_id(func, k),
    ensures
        last_index(func, id) == k,
{
    let i = last_index(func, id);
    assert(0 <= i < func.blocks.len() && func.blocks[i].id == id && last_with_id(func, i));
    if i < k {
        assert(func.blocks[k].id != func.blocks[i].id);
    } else if k < i {
        assert(func.blocks[i].id != func.blocks[k].id);
    }
}

/// Refs that the code still counts as defined in the body are among those
/// the body defines: so settled for them is settled.
proof fn lemma_settled(func: Function, blocks: Seq<BasicBlock>, l: NaturalLoop, refs: Set<Ref>)
    requires
        refs.subset_of(body_defs(func, blocks, l)),
        settled_by(func, blocks, l, refs),
    ensures
        settled(func, blocks, l),
{
    assert forall|j: int, i: int|
        0 <= j < l.body.len() && 0 <= i < blocks[last_index(func, l.body@[j])].stmts.len() - 1
        implies !hoistable(#[trigger] blocks[last_index(func, l.body@[j])].stmts@[i], body_defs(func, blocks, l)) by {
        let st = blocks[last_index(func, l.body@[j])].stmts@[i];
        assert(!hoistable(st, refs));
        if hoistable(st, body_defs(func, blocks, l)) {
            assert forall|t: int| 0 <= t < spec_operand_refs(st.op).len() implies !refs.contains(#[trigger] spec_operand_refs(st.op)[t]) by {}
        }
    }
}

/// After a statement with result `r0` leaves body block `bpos` for the
/// preheader, the other refs the body defined are still defined there.
proof fn lemma_defs_after_hoist(
    func: Function,
    l: NaturalLoop,
    before: Seq<BasicBlock>,
    after: Seq<BasicBlock>,
    refs: Set<Ref>,
    bpos: int,
    h: int,
    ppos: int,
    r0: Ref,
)
    requires
        refs.subset_of(body_defs(func, before, l)),
        before.len() == after.len(),
        0 <= bpos < before.len(),
        0 <= h < before[bpos].stmts.len(),
        before[bpos].stmts@[h].result == Some(r0),
        after[bpos].stmts@ == before[bpos].stmts@.remove(h),
        forall|x: int| 0 <= x < after.len() && x != bpos && x != ppos ==> #[trigger] after[x] == before[x],
        forall|j: int| 0 <= j < l.body.len() ==> last_index(func, #[trigger] l.body@[j]) != ppos,
        forall|j: int| 0 <= j < l.body.len() ==> 0 <= last_index(func, #[trigger] l.body@[j]) < before.len(),
    ensures
        refs.remove(r0).subset_of(body_defs(func, after, l)),
{
    assert forall|r: Ref| #[trigger] refs.remove(r0).contains(r) implies body_defs(func, after, l).contains(r) by {
        assert(body_defs(func, before, l).contains(r));
        let (j, i) = choose|j: int, i: int|
            0 <= j < l.body.len() && 0 <= i < before[last_index(func, l.body@[j])].stmts.len()
                && #[trigger] before[last_index(func, l.body@[j])].stmts@[i].result == Some(r);
        let p = last_index(func, l.body@[j]);
        if p == bpos {
            assert(i != h);
            let i2 = if i < h { i } else { i - 1 };
            assert(after[p].stmts@[i2] == before[p].stmts@[i]);
            assert(after[last_index(func, l.body@[j])].stmts@[i2].result == Some(r));
        } else {
            assert(p != ppos);
            assert(after[p] == before[p]);
            assert(after[last_index(func, l.body@[j])].stmts@[i].result == Some(r));
        }
    }
}

/// Keeps ids, emptiness and last statements of `orig` in `blocks`.
spec fn shape_kept(orig: Seq<BasicBlock>, blocks: Seq<BasicBlock>) -> bool {
    &&& blocks.len() == orig.len()
    &&& forall|i: int|
        0 <= i < orig.len() ==> {
            &&& (#[trigger] blocks[i]).id == orig[i].id
            &&& blocks[i].stmts@.len() == 0 <==> orig[i].stmts@.len() == 0
            &&& orig[i].stmts@.len() > 0 ==> blocks[i].stmts@.last() == orig[i].stmts@.last()
        }
}

/// Move the statement at `i` of block `bpos` to just before the last
/// statement of block `ppos`.
fn hoist(blocks: &mut Vec<BasicBlock>, bpos: usize, i: usize, ppos: usize, Ghost(orig): Ghost<Seq<BasicBlock>>) -> (moved: Option<Ref>)
    requires
        bpos < old(blocks).len(),
        ppos < old(blocks).len(),
        bpos != ppos,
        i + 1 < old(blocks)@[bpos as int].stmts@.len(),
        spec_stmt_is_pure(old(blocks)@[bpos as int].stmts@[i as int].op),
        effects_kept(orig, old(blocks)@),
        old(blocks)@[ppos as int].stmts@.len() > 0,
        shape_kept(orig, old(blocks)@),
    ensures
        moved == old(blocks)@[bpos as int].stmts@[i as int].result,
        shape_kept(orig, final(blocks)@),
        all_stmts(final(blocks)@) == all_stmts(old(blocks)@),
        final(blocks)@[ppos as int].stmts@.len() == old(blocks)@[ppos as int].stmts@.len() + 1,
        forall|j: int| 0 <= j < final(blocks).len() && j != bpos && j != ppos ==> #[trigger] final(blocks)@[j] == old(blocks)@[j],
        final(blocks)@[bpos as int].stmts@ == old(blocks)@[bpos as int].stmts@.remove(i as int),
        effects_kept(orig, final(blocks)@),
        stmt_lists(final(blocks)@) == moved_to(stmt_lists(old(blocks)@), bpos as int, i as int, ppos as int),
{
    broadcast use vstd::seq_lib::group_to_multiset_ensures;
    let ghost b0 = blocks@;
    let blk = blocks.remove(bpos);
    let BasicBlock { id, stmts } = blk;
    let mut stmts = stmts;
    let hoisted = stmts.remove(i);
    blocks.insert(bpos, BasicBlock { id, stmts });
    let ghost b1 = blocks@;
    proof {
        assert(b1 =~= b0.update(bpos as int, b1[bpos as int]));
        lemma_all_stmts_update(b0, bpos as int, b1[bpos as int]);
        assert(b1[bpos as int].stmts@.last() == b0[bpos as int].stmts@.last());
    }
    let pblk = blocks.remove(ppos);
    let BasicBlock { id: pid, stmts: pst } = pblk;
    let mut pst = pst;
    let insert_pos = pst.len() - 1;
    let ghost moved = hoisted;
    let hoisted_result = hoisted.result;
    pst.insert(insert_pos, hoisted);
    blocks.insert(ppos, BasicBlock { id: pid, stmts: pst });
    proof {
        let b2 = blocks@;
        assert(b2 =~= b1.update(ppos as int, b2[ppos as int]));
        lemma_all_stmts_update(b1, ppos as int, b2[ppos as int]);
        assert(b2[ppos as int].stmts@.last() == b1[ppos as int].stmts@.last());
        assert(b1[bpos as int].stmts@.to_multiset() == b0[bpos as int].stmts@.to_multiset().remove(moved));
        assert(b2[ppos as int].stmts@.to_multiset() == b1[ppos as int].stmts@.to_multiset().insert(moved));
        let s0 = b0[bpos as int].stmts@.to_multiset();
        let s1 = b1[bpos as int].stmts@.to_multiset();
        let p1 = b1[ppos as int].stmts@.to_multiset();
        let p2 = b2[ppos as int].stmts@.to_multiset();
        assert(s0.count(moved) > 0) by {
            assert(b0[bpos as int].stmts@.contains(moved));
        }
        assert forall|y: Stmt| all_stmts(b2).count(y) == all_stmts(b0).count(y) by {
            assert(all_stmts(b2).add(p1).count(y) == all_stmts(b1).add(p2).count(y));
            assert(all_stmts(b1).add(s0).count(y) == all_stmts(b0).add(s1).count(y));
            if y == moved {
                assert(p2.count(y) == p1.count(y) + 1);
                assert(s1.count(y) == s0.count(y) - 1);
            } else {
                assert(p2.count(y) == p1.count(y));
                assert(s1.count(y) == s0.count(y));
            }
        }
        assert(all_stmts(b2) =~= all_stmts(b0));
    }
    proof {
        let b2 = blocks@;
        lemma_effects_remove(b0[bpos as int].stmts@, i as int);
        assert(b2[ppos as int].stmts@ == b1[ppos as int].stmts@.insert(insert_pos as int, moved));
        lemma_effects_insert(b1[ppos as int].stmts@, insert_pos as int, moved);
        assert forall|j: int| 0 <= j < orig.len() && j < b2.len() implies effects(#[trigger] b2[j].stmts@) == effects(orig[j].stmts@) by {
            if j != bpos && j != ppos {
                assert(b2[j] == b0[j]);
            }
        }
        let ss0 = stmt_lists(b0);
        let m = moved_to(ss0, bpos as int, i as int, ppos as int);
        assert(b2[bpos as int] == b1[bpos as int]);
        assert(b2[ppos as int].stmts@ == b0[ppos as int].stmts@.insert(b0[ppos as int].stmts@.len() - 1, b0[bpos as int].stmts@[i as int]));
        assert forall|j: int| 0 <= j < b2.len() implies #[trigger] stmt_lists(b2)[j] == m[j] by {
            if j != bpos && j != ppos {
                assert(b2[j] == b0[j]);
            }
        }
        assert(stmt_lists(b2) =~= m);
    }
    hoisted_result
}

#[derive(Debug, Default, Clone, Copy, PartialEq, Eq)]
pub struct Licm;

impl Licm {
    #[must_use]
    pub fn new() -> Self {
        Self
    }
}

/// Hoist loop-invariant statements to loop preheaders.
pub fn loop_invariant_motion(func: Function) -> (out: Function)
    ensures
        licm_result(func, out),
{
    let n = func.blocks.len();
    let loops = natural_loops(&func);
    if n == 0 || loops.len() == 0 {
        proof {
            assert(last_loop_settled(func, loops@, loops@.len() as int, func.blocks@));
        }
        return func;
    }
    let ghost orig = func.blocks@;
    // id -> (last) position in func.blocks
    let idx = last_positions(&func);
    // CFG edges as (successor, predecessor), in block order.
    let edges = collect_edges(&func);
    let ghost ofunc = func;
    let Function { blocks, entry } = func;
    let mut blocks = blocks;
    let mut li: usize = 0;
    proof {
        assert(last_loop_settled(ofunc, loops@, 0, blocks@));
    }
    while li < loops.len()
        invariant
            li <= loops.len(),
            n == orig.len(),
            orig == ofunc.blocks@,
            entry == ofunc.entry,
            edges@ == cfg_edges(ofunc),
            shape_kept(orig, blocks@),
            effects_kept(orig, blocks@),
            all_stmts(blocks@) == all_stmts(orig),
            forall|k: u32| #[trigger] idx@.contains_key(k) ==> {
                &&& idx@[k] < n
                &&& ofunc.blocks@[idx@[k] as int].id == k
                &&& last_with_id(ofunc, idx@[k] as int)
            },
            forall|m: int| 0 <= m < n ==> idx@.contains_key(#[trigger] ofunc.blocks@[m].id),
            forall|i: int| 0 <= i < loops.len() ==> forall|j: int| 0 <= j < (#[trigger] loops[i]).body.len()
                ==> is_block_id(ofunc, #[trigger] loops[i].body@[j]),
            last_loop_settled(ofunc, loops@, li as int, blocks@),
            licm_from(ofunc, loops@, 0, stmt_lists(orig)) == licm_from(ofunc, loops@, li as int, stmt_lists(blocks@)),
        decreases loops.len() - li,
    {
        let lp = &loops[li];
        let ghost loop_start = blocks@;
        let mut body_ids: HashSet<u32> = HashSet::new();
        let mut q: usize = 0;
        while q < lp.body.len()
            invariant
                q <= lp.body.len(),
                forall|x: u32| #[trigger] body_ids@.contains(x) <==> exists|j: int| 0 <= j < q && lp.body@[j] == x,
            decreases lp.body.len() - q,
        {
            body_ids.insert(lp.body[q]);
            q = q + 1;
        }
        proof {
            assert forall|x: u32| #[trigger] body_ids@.contains(x) <==> lp.body@.contains(x) by {
                if lp.body@.contains(x) {
                    let j = choose|j: int| 0 <= j < lp.body@.len() && lp.body@[j] == x;
                }
            }
        }
        // Preheader = unique non-loop predecessor of the header.
        let mut outside: usize = 0;
        let mut preheader_id: u32 = 0;
        let mut e: usize = 0;
        while e < edges.len()
            invariant
                e <= edges.len(),
                outside <= e,
                outside == outside_in(edges@, lp.header, lp.body@, e as nat),
                outside > 0 ==> preheader_id == first_outside(edges@, lp.header, lp.body@, e as nat),
                outside > 0 ==> !body_ids@.contains(preheader_id),
                forall|x: u32| #[trigger] body_ids@.contains(x) <==> lp.body@.contains(x),
            decreases edges.len() - e,
        {
            if edges[e].0 == lp.header && !body_ids.contains(&edges[e].1) {
                if outside == 0 {
                    preheader_id = edges[e].1;
                }
                outside = outside + 1;
            }
            e = e + 1;
        }
        let mut processed = false;
        if outside == 1 {
            if let Some(pp) = idx.get(&preheader_id) {
                let preheader_pos = *pp;
                proof {
                    lemma_last_index(ofunc, preheader_id, preheader_pos as int);
                }
                if blocks[preheader_pos].stmts.len() > 0 {
                    processed = true;
                    proof {
                        assert(is_block_id(ofunc, preheader_id));
                        assert(hoists_out_of(ofunc, *lp));
                        assert forall|j: int| 0 <= j < lp.body.len() implies last_index(ofunc, #[trigger] lp.body@[j]) != preheader_pos
                            && 0 <= last_index(ofunc, lp.body@[j]) < n by {
                            let x = lp.body@[j];
                            assert(is_block_id(ofunc, x));
                            let m = choose|m: int| 0 <= m < n && ofunc.blocks[m].id == x;
                            assert(idx@.contains_key(ofunc.blocks@[m].id));
                            lemma_last_index(ofunc, x, idx@[x] as int);
                            assert(body_ids@.contains(x));
                        }
                    }
                    // Refs defined in the loop body; shrinks as we hoist.
                    let mut body_refs: HashSet<Ref> = HashSet::new();
                    let mut q: usize = 0;
                    while q < lp.body.len()
                        invariant
                            q <= lp.body.len(),
                            n == orig.len(),
                            shape_kept(orig, blocks@),
                            forall|k: u32| #[trigger] idx@.contains_key(k) ==> {
                                &&& idx@[k] < n
                                &&& ofunc.blocks@[idx@[k] as int].id == k
                                &&& last_with_id(ofunc, idx@[k] as int)
                            },
                            forall|m: int| 0 <= m < n ==> idx@.contains_key(#[trigger] ofunc.blocks@[m].id),
                            orig == ofunc.blocks@,
                            forall|j: int| 0 <= j < lp.body.len() ==> is_block_id(ofunc, #[trigger] lp.body@[j]),
                            body_refs@.subset_of(body_defs(ofunc, blocks@, *lp)),
                            blocks@ == loop_start,
                            forall|r: Ref| #[trigger] body_refs@.contains(r) <==> exists|j: int, i: int|
                                0 <= j < q && 0 <= i < blocks@[last_index(ofunc, lp.body@[j])].stmts@.len()
                                    && blocks@[last_index(ofunc, lp.body@[j])].stmts@[i].result == Some(r),
                        decreases lp.body.len() - q,
                    {
                        proof {
                            assert(is_block_id(ofunc, lp.body@[q as int]));
                            let m = choose|m: int| 0 <= m < n && ofunc.blocks[m].id == lp.body@[q as int];
                            assert(idx@.contains_key(ofunc.blocks@[m].id));
                        }
                        let bpos = *idx.get(&lp.body[q]).unwrap();
                        proof {
                            lemma_last_index(ofunc, lp.body@[q as int], bpos as int);
                        }
                        let stmts = &blocks[bpos].stmts;
                        let mut t: usize = 0;
                        while t < stmts.len()
                            invariant
                                t <= stmts.len(),
                                stmts@ == blocks@[bpos as int].stmts@,
                                bpos as int == last_index(ofunc, lp.body@[q as int]),
                                q < lp.body.len(),
                                body_refs@.subset_of(body_defs(ofunc, blocks@, *lp)),
                                forall|r: Ref| #[trigger] body_refs@.contains(r) <==> (exists|j: int, i: int|
                                    0 <= j < q && 0 <= i < blocks@[last_index(ofunc, lp.body@[j])].stmts@.len()
                                        && blocks@[last_index(ofunc, lp.body@[j])].stmts@[i].result == Some(r))
                                    || exists|i: int| 0 <= i < t && stmts@[i].result == Some(r),
                            decreases stmts.len() - t,
                        {
                            if let Some(r) = stmts[t].result {
                                body_refs.insert(r);
                                proof {
                                    assert(blocks@[last_index(ofunc, lp.body@[q as int])].stmts@[t as int].result == Some(r));
                                    assert(body_defs(ofunc, blocks@, *lp).contains(r));
                                }
                            }
                            t = t + 1;
                        }
                        proof {
                            assert forall|r: Ref| #[trigger] body_refs@.contains(r) <==> exists|j: int, i: int|
                                0 <= j < q + 1 && 0 <= i < blocks@[last_index(ofunc, lp.body@[j])].stmts@.len()
                                    && blocks@[last_index(ofunc, lp.body@[j])].stmts@[i].result == Some(r) by {
                                if body_refs@.contains(r) {
                                    if !(exists|j: int, i: int|
                                        0 <= j < q && 0 <= i < blocks@[last_index(ofunc, lp.body@[j])].stmts@.len()
                                            && blocks@[last_index(ofunc, lp.body@[j])].stmts@[i].result == Some(r)) {
                                        let i = choose|i: int| 0 <= i < t && stmts@[i].result == Some(r);
                                        assert(0 <= q && 0 <= i < blocks@[last_index(ofunc, lp.body@[q as int])].stmts@.len()
                                            && blocks@[last_index(ofunc, lp.body@[q as int])].stmts@[i].result == Some(r));
                                    }
                                } else {
                                    if exists|j: int, i: int|
                                        0 <= j < q + 1 && 0 <= i < blocks@[last_index(ofunc, lp.body@[j])].stmts@.len()
                                            && blocks@[last_index(ofunc, lp.body@[j])].stmts@[i].result == Some(r) {
                                        let (j, i) = choose|j: int, i: int|
                                            0 <= j < q + 1 && 0 <= i < blocks@[last_index(ofunc, lp.body@[j])].stmts@.len()
                                                && blocks@[last_index(ofunc, lp.body@[j])].stmts@[i].result == Some(r);
                                        if j == q {
                                            assert(stmts@[i].result == Some(r));
                                        }
                                        assert(false);
                                    }
                                }
                            }
                        }
                        q = q + 1;
                    }
                    proof {
                        let ss = stmt_lists(blocks@);
                        assert forall|r: Ref| #[trigger] body_refs@.contains(r) <==> defs_in(ofunc, ss, *lp).contains(r) by {
                            if body_refs@.contains(r) {
                                let (j, i) = choose|j: int, i: int|
                                    0 <= j < lp.body.len() && 0 <= i < blocks@[last_index(ofunc, lp.body@[j])].stmts@.len()
                                        && blocks@[last_index(ofunc, lp.body@[j])].stmts@[i].result == Some(r);
                                assert(ss[last_index(ofunc, lp.body@[j])] == blocks@[last_index(ofunc, lp.body@[j])].stmts@);
                                assert(ss[last_index(ofunc, lp.body@[j])][i].result == Some(r));
                            }
                            if defs_in(ofunc, ss, *lp).contains(r) {
                                let (j, i) = choose|j: int, i: int|
                                    0 <= j < lp.body.len() && 0 <= i < ss[last_index(ofunc, lp.body@[j])].len()
                                        && #[trigger] ss[last_index(ofunc, lp.body@[j])][i].result == Some(r);
                                assert(ss[last_index(ofunc, lp.body@[j])] == blocks@[last_index(ofunc, lp.body@[j])].stmts@);
                            }
                        }
                        assert(body_refs@ =~= defs_in(ofunc, ss, *lp));
                    }
                    let ghost total = all_stmts(blocks@).len();
                    let ghost ss0 = stmt_lists(blocks@);
                    let ghost defs0 = body_refs@;
                    let ghost mut fuel: nat = (total + 1) as nat;
                    let mut changed = true;
                    while changed
                        invariant
                            changed ==> rounds(ofunc, ss0, defs0, *lp, preheader_pos as int, (total + 1) as nat)
                                == rounds(ofunc, stmt_lists(blocks@), body_refs@, *lp, preheader_pos as int, fuel),
                            !changed ==> rounds(ofunc, ss0, defs0, *lp, preheader_pos as int, (total + 1) as nat)
                                == stmt_lists(blocks@),
                            changed ==> fuel + blocks@[preheader_pos as int].stmts@.len() >= total + 1,
                            preheader_pos < n,
                            n == orig.len(),
                            !body_ids@.contains(preheader_id),
                            orig[preheader_pos as int].id == preheader_id,
                            blocks@[preheader_pos as int].stmts@.len() > 0,
                            shape_kept(orig, blocks@),
                            effects_kept(orig, blocks@),
                            all_stmts(blocks@) == all_stmts(orig),
                            total == all_stmts(orig).len(),
                            forall|x: u32| #[trigger] body_ids@.contains(x) <==> exists|j: int| 0 <= j < lp.body.len() && lp.body@[j] == x,
                            forall|k: u32| #[trigger] idx@.contains_key(k) ==> {
                                &&& idx@[k] < n
                                &&& ofunc.blocks@[idx@[k] as int].id == k
                                &&& last_with_id(ofunc, idx@[k] as int)
                            },
                            forall|m: int| 0 <= m < n ==> idx@.contains_key(#[trigger] ofunc.blocks@[m].id),
                            orig == ofunc.blocks@,
                            forall|j: int| 0 <= j < lp.body.len() ==> is_block_id(ofunc, #[trigger] lp.body@[j]),
                            forall|j: int| 0 <= j < lp.body.len() ==> last_index(ofunc, #[trigger] lp.body@[j]) != preheader_pos,
                                forall|j: int| 0 <= j < lp.body.len() ==> 0 <= last_index(ofunc, #[trigger] lp.body@[j]) < n,
                            body_refs@.subset_of(body_defs(ofunc, blocks@, *lp)),
                            !changed ==> settled_by(ofunc, blocks@, *lp, body_refs@),
                        decreases 2 * (total - blocks@[preheader_pos as int].stmts@.len()) + (if changed { 1int } else { 0int }),
                    {
                        proof {
                            lemma_block_len_le_all(blocks@, preheader_pos as int);
                        }
                        let ghost start_ph = blocks@[preheader_pos as int].stmts@.len();
                        let ghost round_blocks = blocks@;
                        let ghost round_refs = body_refs@;
                        changed = false;
                        let mut q: usize = 0;
                        while q < lp.body.len()
                            invariant
                                continues(round(ofunc, stmt_lists(round_blocks), round_refs, lp.body@, 0, preheader_pos as int),
                                    round(ofunc, stmt_lists(blocks@), body_refs@, lp.body@, q as int, preheader_pos as int), changed),
                                q <= lp.body.len(),
                                preheader_pos < n,
                                n == orig.len(),
                                !body_ids@.contains(preheader_id),
                                orig[preheader_pos as int].id == preheader_id,
                                blocks@[preheader_pos as int].stmts@.len() > 0,
                                shape_kept(orig, blocks@),
                                effects_kept(orig, blocks@),
                                all_stmts(blocks@) == all_stmts(orig),
                                total == all_stmts(orig).len(),
                                blocks@[preheader_pos as int].stmts@.len() >= start_ph,
                                changed ==> blocks@[preheader_pos as int].stmts@.len() > start_ph,
                                forall|x: u32| #[trigger] body_ids@.contains(x) <==> exists|j: int| 0 <= j < lp.body.len() && lp.body@[j] == x,
                                forall|k: u32| #[trigger] idx@.contains_key(k) ==> {
                                    &&& idx@[k] < n
                                    &&& ofunc.blocks@[idx@[k] as int].id == k
                                    &&& last_with_id(ofunc, idx@[k] as int)
                                },
                                forall|m: int| 0 <= m < n ==> idx@.contains_key(#[trigger] ofunc.blocks@[m].id),
                                orig == ofunc.blocks@,
                                forall|j: int| 0 <= j < lp.body.len() ==> is_block_id(ofunc, #[trigger] lp.body@[j]),
                                forall|j: int| 0 <= j < lp.body.len() ==> last_index(ofunc, #[trigger] lp.body@[j]) != preheader_pos,
                                forall|j: int| 0 <= j < lp.body.len() ==> 0 <= last_index(ofunc, #[trigger] lp.body@[j]) < n,
                                body_refs@.subset_of(body_defs(ofunc, blocks@, *lp)),
                                !changed ==> blocks@ == round_blocks && body_refs@ == round_refs,
                                !changed ==> forall|j: int, i: int|
                                    0 <= j < q && 0 <= i < blocks@[last_index(ofunc, lp.body@[j])].stmts.len() - 1
                                    ==> !hoistable(#[trigger] blocks@[last_index(ofunc, lp.body@[j])].stmts@[i], body_refs@),
                            decreases lp.body.len() - q,
                        {
                            let bid = lp.body[q];
                            proof {
                                assert(is_block_id(ofunc, bid));
                                assert(body_ids@.contains(bid));
                                let m = choose|m: int| 0 <= m < n && ofunc.blocks[m].id == bid;
                                assert(idx@.contains_key(ofunc.blocks@[m].id));
                            }
                            let bpos = *idx.get(&bid).unwrap();
                            proof {
                                lemma_last_index(ofunc, bid, bpos as int);
                            }
                            let ghost pre_blocks = blocks@;
                            let ghost pre_refs = body_refs@;
                            let ghost pre_changed = changed;
                            let ghost mut moved_any = false;
                            let mut done = false;
                            while !done
                                invariant
                                    changed == (pre_changed || moved_any),
                                    !done ==> continues(drain(stmt_lists(pre_blocks), pre_refs, bpos as int, preheader_pos as int),
                                        drain(stmt_lists(blocks@), body_refs@, bpos as int, preheader_pos as int), moved_any),
                                    done ==> drain(stmt_lists(pre_blocks), pre_refs, bpos as int, preheader_pos as int)
                                        == (stmt_lists(blocks@), body_refs@, moved_any),
                                    pre_changed ==> changed,
                                    bpos < n,
                                    n == orig.len(),
                                    bpos != preheader_pos,
                                    q < lp.body.len(),
                                    bpos as int == last_index(ofunc, lp.body@[q as int]),
                                    preheader_pos < n,
                                    blocks@[preheader_pos as int].stmts@.len() > 0,
                                    shape_kept(orig, blocks@),
                                    effects_kept(orig, blocks@),
                                    all_stmts(blocks@) == all_stmts(orig),
                                    total == all_stmts(orig).len(),
                                    blocks@[preheader_pos as int].stmts@.len() >= start_ph,
                                    changed ==> blocks@[preheader_pos as int].stmts@.len() > start_ph,
                                    forall|j: int| 0 <= j < lp.body.len() ==> last_index(ofunc, #[trigger] lp.body@[j]) != preheader_pos,
                                forall|j: int| 0 <= j < lp.body.len() ==> 0 <= last_index(ofunc, #[trigger] lp.body@[j]) < n,
                                    body_refs@.subset_of(body_defs(ofunc, blocks@, *lp)),
                                    !changed ==> blocks@ == round_blocks && body_refs@ == round_refs,
                                    done && !changed ==> forall|i: int| 0 <= i < blocks@[bpos as int].stmts.len() - 1
                                        ==> !hoistable(#[trigger] blocks@[bpos as int].stmts@[i], body_refs@),
                                decreases 2 * (total - blocks@[preheader_pos as int].stmts@.len()) + (if done { 0int } else { 1int }),
                            {
                                proof {
                                    lemma_block_len_le_all(blocks@, preheader_pos as int);
                                }
                                let len = blocks[bpos].stmts.len();
                                if len == 0 {
                                    done = true;
                                } else {
                                    let term_pos = len - 1;
                                    // Find the first hoistable statement before the terminator.
                                    let mut hoist_at: Option<usize> = None;
                                    let mut i: usize = 0;
                                    while i < term_pos && hoist_at.is_none()
                                        invariant
                                            i <= term_pos,
                                            term_pos + 1 == blocks@[bpos as int].stmts@.len(),
                                            bpos < blocks.len(),
                                            hoist_at matches Some(h) ==> h < term_pos && hoistable(blocks@[bpos as int].stmts@[h as int], body_refs@),
                                            hoist_at is None ==> first_hoistable(blocks@[bpos as int].stmts@, body_refs@, 0)
                                                == first_hoistable(blocks@[bpos as int].stmts@, body_refs@, i as int),
                                            hoist_at matches Some(h) ==> first_hoistable(blocks@[bpos as int].stmts@, body_refs@, 0) == Some(h as int),
                                            hoist_at is None ==> forall|i2: int| 0 <= i2 < i
                                                ==> !hoistable(#[trigger] blocks@[bpos as int].stmts@[i2], body_refs@),
                                        decreases term_pos - i,
                                    {
                                        let stmt = &blocks[bpos].stmts[i];
                                        if stmt.result.is_some() && stmt_is_pure(&stmt.op) {
                                            let mut ops: Vec<Ref> = Vec::new();
                                            operand_refs(&stmt.op, &mut ops);
                                            let mut outside_only = true;
                                            let mut t: usize = 0;
                                            while t < ops.len()
                                                invariant
                                                    t <= ops.len(),
                                                    outside_only == forall|t2: int| 0 <= t2 < t ==> !body_refs@.contains(#[trigger] ops@[t2]),
                                                decreases ops.len() - t,
                                            {
                                                if body_refs.contains(&ops[t]) {
                                                    outside_only = false;
                                                }
                                                t = t + 1;
                                            }
                                            proof {
                                                assert(ops@ =~= spec_operand_refs(stmt.op));
                                            }
                                            if outside_only {
                                                hoist_at = Some(i);
                                            }
                                        }
                                        i = i + 1;
                                    }
                                    match hoist_at {
                                        None => {
                                            done = true;
                                        },
                                        Some(h) => {
                                            let ghost before = blocks@;
                                            let ghost refs0 = body_refs@;
                                            // Remove from body, insert before the preheader terminator.
                                            let moved = hoist(&mut blocks, bpos, h, preheader_pos, Ghost(orig));
                                            proof {
                                                lemma_block_len_le_all(blocks@, preheader_pos as int);
                                            }
                                            if let Some(r) = moved {
                                                body_refs.remove(&r);
                                                proof {
                                                    lemma_defs_after_hoist(ofunc, *lp, before, blocks@, refs0, bpos as int, h as int, preheader_pos as int, r);
                                                }
                                            }
                                            changed = true;
                                            proof {
                                                moved_any = true;
                                            }
                                        },
                                    }
                                }
                            }
                            proof {
                                if !changed {
                                    assert(!pre_changed);
                                    assert(pre_blocks == blocks@ && pre_refs == body_refs@);
                                    assert forall|j: int, i: int|
                                        0 <= j < q + 1 && 0 <= i < blocks@[last_index(ofunc, lp.body@[j])].stmts.len() - 1
                                        implies !hoistable(#[trigger] blocks@[last_index(ofunc, lp.body@[j])].stmts@[i], body_refs@) by {
                                        if j == q {
                                            assert(last_index(ofunc, lp.body@[j]) == bpos);
                                        } else {
                                            assert(!hoistable(pre_blocks[last_index(ofunc, lp.body@[j])].stmts@[i], pre_refs));
                                        }
                                    }
                                }
                            }
                            q = q + 1;
                        }
                        proof {
                            lemma_block_len_le_all(blocks@, preheader_pos as int);
                            lemma_block_len_le_all(round_blocks, preheader_pos as int);
                            assert(fuel >= 1);
                            if changed {
                                fuel = (fuel - 1) as nat;
                            }
                        }
                    }
                    proof {
                        lemma_settled(ofunc, blocks@, *lp, body_refs@);
                    }
                }
            }
        }
        proof {
            if processed {
                assert(hoists_out_of(ofunc, loops@[li as int]));
                assert(last_loop_settled(ofunc, loops@, li + 1, blocks@)) by {
                    assert(settled(ofunc, blocks@, loops@[li as int]));
                }
            } else {
                assert(blocks@ == loop_start);
                assert(!hoists_out_of(ofunc, loops@[li as int])) by {
                    if hoists_out_of(ofunc, loops@[li as int]) {
                        let p = preheader(ofunc, *lp)->0;
                        assert(outside == 1);
                        assert(preheader_id == p);
                        let m = choose|m: int| 0 <= m < n && ofunc.blocks[m].id == p;
                        assert(idx@.contains_key(ofunc.blocks@[m].id));
                        lemma_last_index(ofunc, p, idx@[p] as int);
                    }
                }
                if exists|l2: int| 0 <= l2 < li && #[trigger] hoists_out_of(ofunc, loops@[l2]) {
                    let l2 = choose|l2: int| {
                        &&& 0 <= l2 < li
                        &&& #[trigger] hoists_out_of(ofunc, loops@[l2])
                        &&& settled(ofunc, blocks@, loops@[l2])
                        &&& forall|lj: int| l2 < lj < li ==> !#[trigger] hoists_out_of(ofunc, loops@[lj])
                    };
                    assert(forall|lj: int| l2 < lj < li + 1 ==> !#[trigger] hoists_out_of(ofunc, loops@[lj]));
                }
            }
        }
        li = li + 1;
    }
    Function { blocks, entry }
}

impl Pass for Licm {
    fn name(&self) -> (r: &'static str)
        ensures
            r@ == "loop_invariant_motion"@,
    {
        "loop_invariant_motion"
    }

    fn run(&self, func: Function) -> (out: Function)
        ensures
            licm_result(func, out),
    {
        loop_invariant_motion(func)
    }
}

} // verus!
