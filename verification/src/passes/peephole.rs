//! Peephole optimization pass.
//!
//! A fixed set of local rewrite rules is applied repeatedly (first match wins
//! per position) up to `MAX_ITERATIONS` times until no rule fires. Rewrites
//! lower to copy idioms (`Truncate`) or `Constant`, which downstream constant
//! propagation and DCE collapse.

use vstd::prelude::*;

use crate::ir::{BinOpKind, Constant, Function, Op, Ref, Stmt, Truncate};
use crate::passes::{blockwise, map_blocks, Pass};

verus! {

/// Termination bound on the rewrite rounds.
pub const MAX_ITERATIONS: usize = 8;

/// The value of the constant bound by the latest statement at or before
/// position `j` whose result is `r`; `None` when that statement is not a
/// `Constant` or no such statement exists.
pub open spec fn pp_const_at_or_before(s: Seq<Stmt>, j: int, r: Ref) -> Option<u64>
    decreases j + 1,
{
    if j < 0 || j >= s.len() {
        None
    } else if s[j].result == Some(r) {
        match s[j].op {
            Op::Constant(c) => Some(c.value),
            _ => None,
        }
    } else {
        pp_const_at_or_before(s, j - 1, r)
    }
}

/// The rewrite of the statement at `idx`, if a rule matches.
pub open spec fn pp_rule(s: Seq<Stmt>, idx: int) -> Option<Op> {
    let st = s[idx];
    if st.result is None {
        None
    } else {
        match st.op {
            Op::Extend(e) => if e.from_size == e.to_size {
                Some(Op::Truncate(Truncate { value: e.value, to_size: e.to_size }))
            } else {
                None
            },
            Op::BinOp(b) => {
                let cl = pp_const_at_or_before(s, idx - 1, b.lhs);
                let cr = pp_const_at_or_before(s, idx - 1, b.rhs);
                if b.op == BinOpKind::Xor && b.lhs == b.rhs {
                    Some(Op::Constant(Constant { value: 0, size: b.size }))
                } else if (b.op == BinOpKind::Or || b.op == BinOpKind::And) && b.lhs == b.rhs {
                    Some(Op::Truncate(Truncate { value: b.lhs, to_size: b.size }))
                } else if b.op == BinOpKind::Add && cl == Some(0u64) {
                    Some(Op::Truncate(Truncate { value: b.rhs, to_size: b.size }))
                } else if b.op == BinOpKind::Add && cr == Some(0u64) {
                    Some(Op::Truncate(Truncate { value: b.lhs, to_size: b.size }))
                } else if b.op == BinOpKind::Sub && cr == Some(0u64) {
                    Some(Op::Truncate(Truncate { value: b.lhs, to_size: b.size }))
                } else if b.op == BinOpKind::Mul && cl == Some(1u64) {
                    Some(Op::Truncate(Truncate { value: b.rhs, to_size: b.size }))
                } else if b.op == BinOpKind::Mul && cr == Some(1u64) {
                    Some(Op::Truncate(Truncate { value: b.lhs, to_size: b.size }))
                } else if b.op == BinOpKind::Mul && (cl == Some(0u64) || cr == Some(0u64)) {
                    Some(Op::Constant(Constant { value: 0, size: b.size }))
                } else {
                    None
                }
            },
            _ => None,
        }
    }
}

/// One round: every position rewritten by its matching rule, if any (rules
/// look at the statements as they were before the round).
pub open spec fn pp_once(s: Seq<Stmt>) -> Seq<Stmt> {
    Seq::new(
        s.len(),
        |i: int| match pp_rule(s, i) {
            Some(op) => Stmt { result: s[i].result, op },
            None => s[i],
        },
    )
}

/// `k` rounds.
pub open spec fn pp_rounds(s: Seq<Stmt>, k: nat) -> Seq<Stmt>
    decreases k,
{
    if k == 0 {
        s
    } else {
        pp_rounds(pp_once(s), (k - 1) as nat)
    }
}

/// A block after the peephole pass: `MAX_ITERATIONS` rounds (a round in which
/// no rule fires leaves the block unchanged).
pub open spec fn pp_block(s: Seq<Stmt>) -> Seq<Stmt> {
    pp_rounds(s, MAX_ITERATIONS as nat)
}

/// Find the most recent statement before `idx` whose result is `r` and which
/// binds a `Constant`; return that constant value.
fn try_const(stmts: &Vec<Stmt>, idx: usize, r: Ref) -> (res: Option<u64>)
    requires
        idx <= stmts.len(),
    ensures
        res == pp_const_at_or_before(stmts@, idx - 1, r),
{
    let mut i = idx;
    while i > 0
        invariant
            i <= idx <= stmts.len(),
            pp_const_at_or_before(stmts@, i - 1, r) == pp_const_at_or_before(stmts@, idx - 1, r),
        decreases i,
    {
        i = i - 1;
        if let Some(res) = stmts[i].result {
            if res == r {
                return match &stmts[i].op {
                    Op::Constant(c) => Some(c.value),
                    _ => None,
                };
            }
        }
    }
    None
}

/// Try every rule at position `idx`; first match wins. Returns the
/// replacement op (always a single statement here) or `None`.
fn match_rule(stmts: &Vec<Stmt>, idx: usize) -> (r: Option<Op>)
    requires
        idx < stmts.len(),
    ensures
        r == pp_rule(stmts@, idx as int),
{
    let s = &stmts[idx];
    // Every rule below requires a result ref; bail if absent.
    if s.result.is_none() {
        return None;
    }
    let b = match &s.op {
        Op::BinOp(b) => b,
        Op::Extend(e) => {
            if e.from_size == e.to_size {
                return Some(Op::Truncate(Truncate { value: e.value, to_size: e.to_size }));
            }
            return None;
        },
        _ => return None,
    };
    let cl = try_const(stmts, idx, b.lhs);
    let cr = try_const(stmts, idx, b.rhs);
    // xor x,x -> 0
    if b.op == BinOpKind::Xor && b.lhs == b.rhs {
        return Some(Op::Constant(Constant { value: 0, size: b.size }));
    }
    // or x,x -> x ; and x,x -> x
    if (b.op == BinOpKind::Or || b.op == BinOpKind::And) && b.lhs == b.rhs {
        return Some(Op::Truncate(Truncate { value: b.lhs, to_size: b.size }));
    }
    // add: const-0 operand -> other
    if b.op == BinOpKind::Add {
        if cl == Some(0u64) {
            return Some(Op::Truncate(Truncate { value: b.rhs, to_size: b.size }));
        } else if cr == Some(0u64) {
            return Some(Op::Truncate(Truncate { value: b.lhs, to_size: b.size }));
        }
    }
    // sub x,0 -> x
    if b.op == BinOpKind::Sub && cr == Some(0u64) {
        return Some(Op::Truncate(Truncate { value: b.lhs, to_size: b.size }));
    }
    if b.op == BinOpKind::Mul {
        // mul: const-1 operand -> other
        if cl == Some(1u64) {
            return Some(Op::Truncate(Truncate { value: b.rhs, to_size: b.size }));
        } else if cr == Some(1u64) {
            return Some(Op::Truncate(Truncate { value: b.lhs, to_size: b.size }));
        }
        // mul: const-0 operand -> 0
        if cl == Some(0u64) || cr == Some(0u64) {
            return Some(Op::Constant(Constant { value: 0, size: b.size }));
        }
    }
    None
}

fn run_once(stmts: Vec<Stmt>) -> (r: (Vec<Stmt>, bool))
    ensures
        r.0@ == pp_once(stmts@),
        r.1 == exists|i: int| 0 <= i < stmts@.len() && (#[trigger] pp_rule(stmts@, i)) is Some,
{
    broadcast use vstd::std_specs::vec::axiom_spec_into_iter;
    let ghost s = stmts@;
    let n = stmts.len();
    // Rewrites by position, last position first.
    let mut rules: Vec<Option<Op>> = Vec::new();
    let mut changed = false;
    let mut j = n;
    while j > 0
        invariant
            j <= n == s.len(),
            s == stmts@,
            rules.len() == n - j,
            forall|k: int| 0 <= k < rules.len() ==> rules[k] == pp_rule(s, n - 1 - k),
            changed == exists|i: int| j <= i < n && (#[trigger] pp_rule(s, i)) is Some,
        decreases j,
    {
        j = j - 1;
        let rule = match_rule(&stmts, j);
        if rule.is_some() {
            changed = true;
        }
        rules.push(rule);
    }
    let mut out: Vec<Stmt> = Vec::with_capacity(n);
    for stmt in it: stmts.into_iter()
        invariant
            it.seq() == s,
            n == s.len(),
            out.len() == it.index(),
            rules.len() == n - it.index(),
            forall|k: int| 0 <= k < rules.len() ==> rules[k] == pp_rule(s, n - 1 - k),
            forall|i: int| 0 <= i < out.len() ==> out[i] == (match pp_rule(s, i) {
                Some(op) => Stmt { result: s[i].result, op },
                None => s[i],
            }),
    {
        let rule = rules.pop().unwrap();
        match rule {
            Some(new_op) => out.push(Stmt::new(stmt.result, new_op)),
            None => out.push(stmt),
        }
    }
    proof {
        assert(out@ =~= pp_once(s));
    }
    (out, changed)
}

proof fn lemma_rounds_fixpoint(s: Seq<Stmt>, k: nat)
    requires
        pp_once(s) == s,
    ensures
        pp_rounds(s, k) == s,
    decreases k,
{
    if k > 0 {
        lemma_rounds_fixpoint(s, (k - 1) as nat);
    }
}

fn peephole_block(stmts: Vec<Stmt>) -> (out: Vec<Stmt>)
    ensures
        out@ == pp_block(stmts@),
{
    let ghost s = stmts@;
    let mut work = stmts;
    let mut round: usize = 0;
    while round < MAX_ITERATIONS
        invariant
            round <= MAX_ITERATIONS,
            pp_rounds(work@, (MAX_ITERATIONS - round) as nat) == pp_block(s),
        ensures
            work@ == pp_block(s),
        decreases MAX_ITERATIONS - round,
    {
        let ghost before = work@;
        let (next, changed) = run_once(work);
        work = next;
        if !changed {
            proof {
                assert(pp_once(before) =~= before);
                lemma_rounds_fixpoint(before, (MAX_ITERATIONS - round) as nat);
                assert(work@ == pp_block(s));
            }
            break;
        }
        round = round + 1;
        proof {
            if round == MAX_ITERATIONS {
                assert(pp_rounds(work@, 0) == work@);
            }
        }
    }
    work
}

#[derive(Debug, Default, Clone, Copy, PartialEq, Eq)]
pub struct Peephole;

impl Peephole {
    #[must_use]
    pub fn new() -> Self {
        Self
    }
}

/// Per-block peephole to a fixed point.
pub fn peephole_optimise_default(func: Function) -> (out: Function)
    ensures
        blockwise(func, out, |s: Seq<Stmt>| pp_block(s)),
{
    map_blocks(func, &peephole_block, Ghost(|s: Seq<Stmt>| pp_block(s)))
}

impl Pass for Peephole {
    fn name(&self) -> (r: &'static str)
        ensures
            r@ == "peephole"@,
    {
        "peephole"
    }

    fn run(&self, func: Function) -> (out: Function)
        ensures
            blockwise(func, out, |s: Seq<Stmt>| pp_block(s)),
    {
        peephole_optimise_default(func)
    }
}

proof fn lemma_rounds_fixed(t: Seq<Stmt>, k: nat)
    requires
        pp_once(t) == t,
    ensures
        pp_rounds(t, k) == t,
    decreases k,
{
    if k > 0 {
        lemma_rounds_fixed(t, (k - 1) as nat);
    }
}

/// Once no rule fires on the result, running the pass again changes
/// nothing: the pass is idempotent at a fixed point. (A chain of rewrites
/// longer than `MAX_ITERATIONS` rounds can leave a rule still firing.)
pub proof fn law_peephole_idempotent_at_fixed_point(s: Seq<Stmt>)
    requires
        pp_once(pp_block(s)) == pp_block(s),
    ensures
        pp_block(pp_block(s)) == pp_block(s),
{
    lemma_rounds_fixed(pp_block(s), MAX_ITERATIONS as nat);
}

} // verus!
