//! Algebraic simplification pass.
//!
//! Identities that fire when *one* operand of a `BinOp` is a known constant
//! with a special value (0, 1, or all-ones), or when both operands are the
//! same SSA ref. Two-constant folds are left to constant propagation so the
//! two passes stay disjoint.

use std::collections::HashMap;

use vstd::prelude::*;

use crate::ir::{BinOp, BinOpKind, Constant, Function, Op, OpSize, Ref, Stmt};
use crate::passes::{blockwise, map_blocks, Pass};

verus! {

broadcast use vstd::std_specs::hash::group_hash_axioms;

/// Canonical masked all-ones for a size.
fn all_ones(size: OpSize) -> (r: u64)
    ensures
        r == size.spec_mask(),
{
    size.mask()
}

fn zero(size: OpSize) -> (r: Op)
    ensures
        r == Op::Constant(Constant { value: 0, size }),
{
    Op::Constant(Constant { value: 0, size })
}

/// The constant a `BinOp` simplifies to under the identities, given the
/// constants `env` known before it; `None` when no identity applies.
pub open spec fn al_simplify(b: BinOp, env: Map<Ref, u64>) -> Option<u64> {
    let ones = b.size.spec_mask();
    let has_r = env.contains_key(b.rhs);
    let has_l = env.contains_key(b.lhs);
    let rv = env[b.rhs];
    let lv = env[b.lhs];
    if b.lhs == b.rhs && (b.op == BinOpKind::Sub || b.op == BinOpKind::Xor) {
        Some(0)
    } else if has_r && (b.op == BinOpKind::Mul || b.op == BinOpKind::And) && rv == 0 {
        Some(0)
    } else if has_r && b.op == BinOpKind::Or && rv == ones {
        Some(ones)
    } else if has_r && (b.op == BinOpKind::UMulHi || b.op == BinOpKind::SMulHi) && rv == 0 {
        Some(0)
    } else if has_r && b.op == BinOpKind::UMulHi && rv == 1 {
        Some(0)
    } else if has_r && (b.op == BinOpKind::UMod || b.op == BinOpKind::SMod) && rv == 1 {
        Some(0)
    } else if has_l && (b.op == BinOpKind::Mul || b.op == BinOpKind::And) && lv == 0 {
        Some(0)
    } else if has_l && b.op == BinOpKind::Or && lv == ones {
        Some(ones)
    } else if has_l && lv == 0 && (b.op == BinOpKind::UMulHi || b.op == BinOpKind::SMulHi
        || b.op == BinOpKind::UDiv || b.op == BinOpKind::SDiv || b.op == BinOpKind::UMod
        || b.op == BinOpKind::SMod) {
        Some(0)
    } else {
        None
    }
}

/// Try to rewrite a `BinOp` to a simpler `Op` (always a `Constant` here).
/// Returns `None` when no identity applies.
fn try_simplify(b: &BinOp, consts: &HashMap<u32, u64>) -> (r: Option<Op>)
    ensures
        r == (match al_simplify(*b, consts@) {
            Some(v) => Some(Op::Constant(Constant { value: v, size: b.size })),
            None => None,
        }),
{
    let lhs = consts.get(&b.lhs);
    let rhs = consts.get(&b.rhs);
    let same_ref = b.lhs == b.rhs;
    let k = b.op;

    // x - x -> 0 ; x ^ x -> 0
    if same_ref && (k == BinOpKind::Sub || k == BinOpKind::Xor) {
        return Some(zero(b.size));
    }
    if let Some(rv) = rhs {
        let rv = *rv;
        // x * 0 -> 0 ; x & 0 -> 0
        if (k == BinOpKind::Mul || k == BinOpKind::And) && rv == 0 {
            return Some(zero(b.size));
        }
        // x | -1 -> -1
        if k == BinOpKind::Or && rv == all_ones(b.size) {
            return Some(Op::Constant(Constant { value: all_ones(b.size), size: b.size }));
        }
        // high half of x*0 = 0 (signed and unsigned)
        if (k == BinOpKind::UMulHi || k == BinOpKind::SMulHi) && rv == 0 {
            return Some(zero(b.size));
        }
        // high half of x*1 = 0 (unsigned only; signed needs sign info)
        if k == BinOpKind::UMulHi && rv == 1 {
            return Some(zero(b.size));
        }
        // x % 1 = 0 (signed and unsigned)
        if (k == BinOpKind::UMod || k == BinOpKind::SMod) && rv == 1 {
            return Some(zero(b.size));
        }
    }
    if let Some(lv) = lhs {
        let lv = *lv;
        // 0 * x -> 0 ; 0 & x -> 0
        if (k == BinOpKind::Mul || k == BinOpKind::And) && lv == 0 {
            return Some(zero(b.size));
        }
        // -1 | x -> -1
        if k == BinOpKind::Or && lv == all_ones(b.size) {
            return Some(Op::Constant(Constant { value: all_ones(b.size), size: b.size }));
        }
        // high half of 0*x = 0 ; 0/x = 0 ; 0%x = 0
        if (k == BinOpKind::UMulHi || k == BinOpKind::SMulHi || k == BinOpKind::UDiv
            || k == BinOpKind::SDiv || k == BinOpKind::UMod || k == BinOpKind::SMod) && lv == 0 {
            return Some(zero(b.size));
        }
    }
    None
}

/// The statement after simplification, given the constants known before it.
pub open spec fn al_stmt(st: Stmt, env: Map<Ref, u64>) -> Stmt {
    match (st.result, st.op) {
        (Some(r), Op::BinOp(b)) => match al_simplify(b, env) {
            Some(v) => Stmt { result: Some(r), op: Op::Constant(Constant { value: v, size: b.size }) },
            None => st,
        },
        _ => st,
    }
}

/// The known constants (masked to their size) after a statement.
pub open spec fn al_env_after(st: Stmt, env: Map<Ref, u64>) -> Map<Ref, u64> {
    match (st.result, st.op) {
        (Some(r), Op::Constant(c)) => env.insert(r, c.value & c.size.spec_mask()),
        (Some(r), Op::BinOp(b)) => match al_simplify(b, env) {
            Some(v) => env.insert(r, v & b.size.spec_mask()),
            None => env,
        },
        _ => env,
    }
}

/// The constants known before statement `n` of a block.
pub open spec fn al_env(s: Seq<Stmt>, n: nat) -> Map<Ref, u64>
    decreases n,
{
    if n == 0 || n > s.len() {
        Map::empty()
    } else {
        al_env_after(s[n - 1], al_env(s, (n - 1) as nat))
    }
}

/// A block after algebraic simplification.
pub open spec fn al_block(s: Seq<Stmt>) -> Seq<Stmt> {
    Seq::new(s.len(), |i: int| al_stmt(s[i], al_env(s, i as nat)))
}

fn algebraic_block(stmts: Vec<Stmt>) -> (out: Vec<Stmt>)
    ensures
        out@ == al_block(stmts@),
{
    broadcast use vstd::std_specs::vec::axiom_spec_into_iter;
    let ghost s = stmts@;
    let mut consts: HashMap<u32, u64> = HashMap::new();
    let mut out: Vec<Stmt> = Vec::new();
    for stmt in it: stmts.into_iter()
        invariant
            it.seq() == s,
            out.len() == it.index(),
            consts@ == al_env(s, it.index() as nat),
            forall|i: int| 0 <= i < out.len() ==> out[i] == al_stmt(s[i], al_env(s, i as nat)),
    {
        let mut new_stmt = stmt;
        if let Some(result) = new_stmt.result {
            match &new_stmt.op {
                Op::Constant(c) => {
                    consts.insert(result, c.value & c.size.mask());
                },
                Op::BinOp(b) => {
                    if let Some(simp) = try_simplify(b, &consts) {
                        if let Op::Constant(c) = &simp {
                            consts.insert(result, c.value & c.size.mask());
                        }
                        new_stmt = Stmt { result: Some(result), op: simp };
                    }
                },
                _ => {},
            }
        }
        out.push(new_stmt);
    }
    proof {
        assert(out@ =~= al_block(s));
    }
    out
}

#[derive(Debug, Default, Clone, Copy, PartialEq, Eq)]
pub struct Algebraic;

impl Algebraic {
    #[must_use]
    pub fn new() -> Self {
        Self
    }
}

/// Apply algebraic identities per basic block.
pub fn algebraic_simplify(func: Function) -> (out: Function)
    ensures
        blockwise(func, out, |s: Seq<Stmt>| al_block(s)),
{
    map_blocks(func, &algebraic_block, Ghost(|s: Seq<Stmt>| al_block(s)))
}

impl Pass for Algebraic {
    fn name(&self) -> (r: &'static str)
        ensures
            r@ == "algebraic_simplify"@,
    {
        "algebraic_simplify"
    }

    fn run(&self, func: Function) -> (out: Function)
        ensures
            blockwise(func, out, |s: Seq<Stmt>| al_block(s)),
    {
        algebraic_simplify(func)
    }
}

proof fn lemma_al_env_stable(s: Seq<Stmt>, n: nat)
    requires
        n <= s.len(),
    ensures
        al_env(al_block(s), n) == al_env(s, n),
    decreases n,
{
    if n > 0 {
        lemma_al_env_stable(s, (n - 1) as nat);
        let t = al_block(s);
        let k = (n - 1) as int;
        assert(t[k] == al_stmt(s[k], al_env(s, k as nat)));
    }
}

/// Algebraic simplification is idempotent and never changes the number of
/// statements of a block; each statement stays as it is or is a binary
/// operation replaced by a constant with the same result.
pub proof fn law_algebraic_idempotent(s: Seq<Stmt>)
    ensures
        al_block(al_block(s)) == al_block(s),
        al_block(s).len() == s.len(),
        forall|i: int| 0 <= i < s.len() ==> {
            ||| #[trigger] al_block(s)[i] == s[i]
            ||| {
                &&& s[i].result is Some
                &&& s[i].op is BinOp
                &&& al_block(s)[i].result == s[i].result
                &&& al_block(s)[i].op is Constant
            }
        },
{
    let t = al_block(s);
    assert forall|i: int| 0 <= i < t.len() implies al_block(t)[i] == t[i] by {
        lemma_al_env_stable(s, i as nat);
    }
    assert(al_block(t) =~= t);
}

} // verus!
