//! Copy propagation pass.
//!
//! Current scope: local `x = Or x, x` copy-like chains only. Within each basic
//! block, every operand ref is rewritten to the canonical alias discovered so
//! far.

use std::collections::HashMap;

use vstd::prelude::*;

use crate::ir::{lemma_op_with_refs, op_with_refs, BinOpKind, Function, Op, Ref, Stmt};
use crate::passes::{blockwise, map_blocks, Pass};

verus! {

broadcast use vstd::std_specs::hash::group_hash_axioms;

/// `r` resolved through the alias chain, following at most `fuel` links and
/// stopping at a ref with no alias (or aliased to itself).
pub open spec fn copy_resolve_from(aliases: Map<Ref, Ref>, r: Ref, fuel: nat) -> Ref
    decreases fuel,
{
    if fuel == 0 || !aliases.contains_key(r) || aliases[r] == r {
        r
    } else {
        copy_resolve_from(aliases, aliases[r], (fuel - 1) as nat)
    }
}

/// `r` resolved through the alias chain. A chain never holds more links than
/// the table holds entries, so as many links as entries are followed.
pub open spec fn copy_resolve(aliases: Map<Ref, Ref>, r: Ref) -> Ref {
    copy_resolve_from(aliases, r, aliases.len())
}

fn resolve_alias(r: u32, aliases: &HashMap<u32, u32>) -> (out: u32)
    ensures
        out == copy_resolve(aliases@, r),
{
    let mut cur = r;
    let mut fuel = aliases.len();
    loop
        invariant
            copy_resolve_from(aliases@, cur, fuel as nat) == copy_resolve(aliases@, r),
        decreases fuel,
    {
        if fuel == 0 {
            return cur;
        }
        match aliases.get(&cur) {
            None => return cur,
            Some(next) => {
                if *next == cur {
                    return cur;
                }
                cur = *next;
                fuel = fuel - 1;
            },
        }
    }
}

/// The op with every stored ref resolved through `aliases`: each operand
/// (and a secondary result, which is no alias key in SSA form, so stays as it
/// is) replaced by its canonical alias.
pub open spec fn copy_rewrite_op(op: Op, aliases: Map<Ref, Ref>) -> Op {
    op_with_refs(op, |r: Ref| copy_resolve(aliases, r))
}

fn rewrite(op: Op, aliases: &HashMap<u32, u32>) -> (r: Op)
    ensures
        r == copy_rewrite_op(op, aliases@),
{
    let ghost before = op;
    let resolve = |v: u32| -> (out: u32)
        ensures
            out == copy_resolve(aliases@, v),
        { resolve_alias(v, aliases) };
    let mut out = op;
    out.map_refs(resolve);
    proof {
        lemma_op_with_refs(
            before,
            out,
            |a: Ref, b: Ref| resolve.ensures((a,), b),
            |v: Ref| copy_resolve(aliases@, v),
        );
    }
    out
}

/// The statement with its operands resolved through the aliases known before it.
pub open spec fn copy_stmt(st: Stmt, aliases: Map<Ref, Ref>) -> Stmt {
    Stmt { result: st.result, op: copy_rewrite_op(st.op, aliases) }
}

/// The aliases after a statement: a rewritten `r = Or x, x` with `x != r`
/// makes `r` an alias of `x`.
pub open spec fn copy_aliases_after(st: Stmt, aliases: Map<Ref, Ref>) -> Map<Ref, Ref> {
    match (st.result, copy_rewrite_op(st.op, aliases)) {
        (Some(r), Op::BinOp(b)) => if b.op == BinOpKind::Or && b.lhs == b.rhs && b.lhs != r {
            aliases.insert(r, b.lhs)
        } else {
            aliases
        },
        _ => aliases,
    }
}

/// The aliases known before statement `n` of a block.
pub open spec fn copy_aliases(s: Seq<Stmt>, n: nat) -> Map<Ref, Ref>
    decreases n,
{
    if n == 0 || n > s.len() {
        Map::empty()
    } else {
        copy_aliases_after(s[n - 1], copy_aliases(s, (n - 1) as nat))
    }
}

/// A block after copy propagation.
pub open spec fn copy_block(s: Seq<Stmt>) -> Seq<Stmt> {
    Seq::new(s.len(), |i: int| copy_stmt(s[i], copy_aliases(s, i as nat)))
}

fn copy_propagate_block(stmts: Vec<Stmt>) -> (out: Vec<Stmt>)
    ensures
        out@ == copy_block(stmts@),
{
    broadcast use vstd::std_specs::vec::axiom_spec_into_iter;
    let ghost s = stmts@;
    let mut aliases: HashMap<u32, u32> = HashMap::new();
    let mut out: Vec<Stmt> = Vec::new();
    for stmt in it: stmts.into_iter()
        invariant
            it.seq() == s,
            out.len() == it.index(),
            aliases@ == copy_aliases(s, it.index() as nat),
            forall|i: int| 0 <= i < out.len() ==> out[i] == copy_stmt(s[i], copy_aliases(s, i as nat)),
    {
        let result = stmt.result;
        let op = rewrite(stmt.op, &aliases);
        if let (Some(result), Op::BinOp(binop)) = (result, &op) {
            if binop.op == BinOpKind::Or && binop.lhs == binop.rhs && binop.lhs != result {
                aliases.insert(result, binop.lhs);
            }
        }
        out.push(Stmt { result, op });
    }
    proof {
        assert(out@ =~= copy_block(s));
    }
    out
}

#[derive(Debug, Default, Clone, Copy, PartialEq, Eq)]
pub struct CopyProp;

impl CopyProp {
    #[must_use]
    pub fn new() -> Self {
        Self
    }
}

/// Copy propagate within each basic block.
pub fn copy_propagate(func: Function) -> (out: Function)
    ensures
        blockwise(func, out, |s: Seq<Stmt>| copy_block(s)),
{
    map_blocks(func, &copy_propagate_block, Ghost(|s: Seq<Stmt>| copy_block(s)))
}

impl Pass for CopyProp {
    fn name(&self) -> (r: &'static str)
        ensures
            r@ == "copy_prop"@,
    {
        "copy_prop"
    }

    fn run(&self, func: Function) -> (out: Function)
        ensures
            blockwise(func, out, |s: Seq<Stmt>| copy_block(s)),
    {
        copy_propagate(func)
    }
}

} // verus!
