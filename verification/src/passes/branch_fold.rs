//! Branch folding pass.
//!
//! When a `CmpFlags const_a, const_b` is followed (with no intervening flag
//! clobber) by a `CondJumpRel`, the direction is known at compile time and the
//! `CondJumpRel` is rewritten to a plain `JumpRel`. The `CmpFlags` is left in
//! place; DCE removes it once the flag state is provably unused. A condition
//! read directly off the flags (carry/overflow/sign) has no comparison
//! value here and folds to the fall-through target.

use std::collections::HashMap;

use vstd::prelude::*;

use crate::ir::{CondCode, Function, JumpRel, Op, OpSize, Ref, Stmt};
use crate::passes::{blockwise, map_blocks, Pass};

verus! {

broadcast use vstd::std_specs::hash::group_hash_axioms;

/// `v` (already masked to `bits` bits) read as a signed number of that width.
pub open spec fn sext(v: u64, bits: u32) -> i64 {
    if bits == 64 {
        v as i64
    } else {
        let sign_bit = 1u64 << ((bits - 1) as u64);
        if v & sign_bit != 0 {
            (v | !(((1u64 << bits as u64) - 1) as u64)) as i64
        } else {
            v as i64
        }
    }
}

/// `a cc b` with size-specific masking; `None` for conditions read directly
/// off the flags.
pub open spec fn spec_eval_cond(cc: CondCode, a: u64, b: u64, size: OpSize) -> Option<bool> {
    let a = a & size.spec_mask();
    let b = b & size.spec_mask();
    let sa = sext(a, size.spec_bit_width());
    let sb = sext(b, size.spec_bit_width());
    match cc {
        CondCode::Eq => Some(a == b),
        CondCode::Ne => Some(a != b),
        CondCode::Ult => Some(a < b),
        CondCode::Ule => Some(a <= b),
        CondCode::Ugt => Some(a > b),
        CondCode::Uge => Some(a >= b),
        CondCode::Slt => Some(sa < sb),
        CondCode::Sle => Some(sa <= sb),
        CondCode::Sgt => Some(sa > sb),
        CondCode::Sge => Some(sa >= sb),
        _ => None,
    }
}

fn sext_exec(v: u64, bits: u32) -> (r: i64)
    requires
        bits == 8 || bits == 16 || bits == 32 || bits == 64,
    ensures
        r == sext(v, bits),
{
    if bits == 64 {
        v as i64
    } else {
        let sign_bit = 1u64 << (bits - 1);
        let top = 1u64 << bits;
        assert(top >= 1) by (bit_vector)
            requires
                bits < 64,
                top == 1u64 << bits,
        ;
        if v & sign_bit != 0 {
            (v | !(top - 1)) as i64
        } else {
            v as i64
        }
    }
}

/// Evaluate `a cc b` with size-specific masking; `None` for flag-direct ccs.
fn eval_cond(cc: CondCode, a: u64, b: u64, size: OpSize) -> (r: Option<bool>)
    ensures
        r == spec_eval_cond(cc, a, b, size),
{
    let a = a & size.mask();
    let b = b & size.mask();
    let bits = size.bit_width();
    let sa = sext_exec(a, bits);
    let sb = sext_exec(b, bits);
    match cc {
        CondCode::Eq => Some(a == b),
        CondCode::Ne => Some(a != b),
        CondCode::Ult => Some(a < b),
        CondCode::Ule => Some(a <= b),
        CondCode::Ugt => Some(a > b),
        CondCode::Uge => Some(a >= b),
        CondCode::Slt => Some(sa < sb),
        CondCode::Sle => Some(sa <= sb),
        CondCode::Sgt => Some(sa > sb),
        CondCode::Sge => Some(sa >= sb),
        CondCode::Cc | CondCode::Nc | CondCode::Ov | CondCode::NoOv | CondCode::Mi | CondCode::Pl => None,
    }
}

/// Constants known so far, and the operands and size of the last flag-setting
/// comparison not yet consumed or clobbered.
pub type FoldState = (Map<Ref, u64>, Option<(Ref, Ref, OpSize)>);

/// The statement after folding, given the state before it.
pub open spec fn bf_stmt(st: Stmt, state: FoldState) -> Stmt {
    match st.op {
        Op::CondJumpRel(cj) => match state.1 {
            Some((lhs, rhs, size)) => if state.0.contains_key(lhs) && state.0.contains_key(rhs) {
                let taken = match spec_eval_cond(cj.cc, state.0[lhs], state.0[rhs], size) {
                    Some(t) => t,
                    None => false,
                };
                Stmt {
                    result: None,
                    op: Op::JumpRel(JumpRel {
                        target_guest_pc: if taken { cj.target_guest_pc } else { cj.fallthrough_guest_pc },
                    }),
                }
            } else {
                st
            },
            None => st,
        },
        _ => st,
    }
}

/// The state after a statement.
pub open spec fn bf_state_after(st: Stmt, state: FoldState) -> FoldState {
    match st.op {
        Op::Constant(c) => match st.result {
            Some(r) => (state.0.insert(r, c.value & c.size.spec_mask()), state.1),
            None => state,
        },
        Op::CmpFlags(cf) => (state.0, Some((cf.lhs, cf.rhs, cf.size))),
        Op::AluFlags(_) | Op::WriteFlagsCountZero(_) | Op::CondJumpRel(_) => (state.0, None),
        _ => state,
    }
}

/// The state before statement `n` of a block.
pub open spec fn bf_state(s: Seq<Stmt>, n: nat) -> FoldState
    decreases n,
{
    if n == 0 || n > s.len() {
        (Map::empty(), None)
    } else {
        bf_state_after(s[n - 1], bf_state(s, (n - 1) as nat))
    }
}

/// A block after branch folding.
pub open spec fn bf_block(s: Seq<Stmt>) -> Seq<Stmt> {
    Seq::new(s.len(), |i: int| bf_stmt(s[i], bf_state(s, i as nat)))
}

fn branch_fold_block(stmts: Vec<Stmt>) -> (out: Vec<Stmt>)
    ensures
        out@ == bf_block(stmts@),
{
    broadcast use vstd::std_specs::vec::axiom_spec_into_iter;
    let ghost s = stmts@;
    let mut consts: HashMap<u32, u64> = HashMap::new();
    let mut last_compare: Option<(Ref, Ref, OpSize)> = None;
    let mut out: Vec<Stmt> = Vec::new();
    for stmt in it: stmts.into_iter()
        invariant
            it.seq() == s,
            out.len() == it.index(),
            (consts@, last_compare) == bf_state(s, it.index() as nat),
            forall|i: int| 0 <= i < out.len() ==> out[i] == bf_stmt(s[i], bf_state(s, i as nat)),
    {
        let mut folded: Option<Stmt> = None;
        match &stmt.op {
            Op::Constant(c) => {
                if let Some(r) = stmt.result {
                    consts.insert(r, c.value & c.size.mask());
                }
            },
            Op::CmpFlags(cf) => {
                last_compare = Some((cf.lhs, cf.rhs, cf.size));
            },
            Op::AluFlags(_) | Op::WriteFlagsCountZero(_) => {
                last_compare = None;
            },
            Op::CondJumpRel(cj) => {
                if let Some((lhs, rhs, size)) = last_compare {
                    if let (Some(a), Some(b)) = (consts.get(&lhs), consts.get(&rhs)) {
                        let choose_taken = match eval_cond(cj.cc, *a, *b, size) {
                            Some(t) => t,
                            None => false,
                        };
                        let target = if choose_taken {
                            cj.target_guest_pc
                        } else {
                            cj.fallthrough_guest_pc
                        };
                        folded = Some(Stmt::new(None, Op::JumpRel(JumpRel { target_guest_pc: target })));
                    }
                }
                last_compare = None;
            },
            _ => {},
        }
        match folded {
            Some(jump) => out.push(jump),
            None => out.push(stmt),
        }
    }
    proof {
        assert(out@ =~= bf_block(s));
    }
    out
}

#[derive(Debug, Default, Clone, Copy, PartialEq, Eq)]
pub struct BranchFold;

impl BranchFold {
    #[must_use]
    pub fn new() -> Self {
        Self
    }
}

/// Per-block branch folding.
pub fn branch_fold(func: Function) -> (out: Function)
    ensures
        blockwise(func, out, |s: Seq<Stmt>| bf_block(s)),
{
    map_blocks(func, &branch_fold_block, Ghost(|s: Seq<Stmt>| bf_block(s)))
}

impl Pass for BranchFold {
    fn name(&self) -> (r: &'static str)
        ensures
            r@ == "branch_fold"@,
    {
        "branch_fold"
    }

    fn run(&self, func: Function) -> (out: Function)
        ensures
            blockwise(func, out, |s: Seq<Stmt>| bf_block(s)),
    {
        branch_fold(func)
    }
}

} // verus!
