//! Common subexpression elimination (local, within a basic block).
//!
//! For each `BinOp`, the canonical key `(op, lhs, rhs, size)` is looked up; a
//! repeat is rewritten to a copy of the prior result (`Or %prev, %prev`). Any
//! flag or side-effecting op conservatively flushes the table.

use std::collections::HashMap;

use vstd::prelude::*;

use crate::ir::{BinOp, BinOpKind, Function, Op, OpSize, Ref, Stmt};
use crate::passes::{blockwise, map_blocks, Pass};

verus! {

broadcast use vstd::std_specs::hash::group_hash_axioms;

/// Position of a binary operation kind in its declaration order.
pub open spec fn kind_index(k: BinOpKind) -> u128 {
    match k {
        BinOpKind::Add => 0,
        BinOpKind::Sub => 1,
        BinOpKind::Mul => 2,
        BinOpKind::And => 3,
        BinOpKind::Or => 4,
        BinOpKind::Xor => 5,
        BinOpKind::Shl => 6,
        BinOpKind::Shr => 7,
        BinOpKind::Sar => 8,
        BinOpKind::Rol => 9,
        BinOpKind::Ror => 10,
        BinOpKind::Rcl => 11,
        BinOpKind::Rcr => 12,
        BinOpKind::UMulHi => 13,
        BinOpKind::SMulHi => 14,
        BinOpKind::UDiv => 15,
        BinOpKind::SDiv => 16,
        BinOpKind::UMod => 17,
        BinOpKind::SMod => 18,
        BinOpKind::Pdep => 19,
        BinOpKind::Pext => 20,
    }
}

/// Position of an operand size in its declaration order.
pub open spec fn size_index(s: OpSize) -> u128 {
    match s {
        OpSize::I8 => 0,
        OpSize::I16 => 1,
        OpSize::I32 => 2,
        OpSize::I64 => 3,
    }
}

/// The table key of a binary operation: its kind, operands and size packed
/// into disjoint bit ranges (so distinct tuples get distinct keys).
pub open spec fn binop_key(op: BinOpKind, lhs: Ref, rhs: Ref, size: OpSize) -> u128 {
    (kind_index(op) * 0x4_0000_0000_0000_0000 + (lhs as u128) * 0x4_0000_0000 + (rhs as u128) * 4 + size_index(size)) as u128
}

pub(crate) fn binop_key_exec(op: BinOpKind, lhs: Ref, rhs: Ref, size: OpSize) -> (r: u128)
    ensures
        r == binop_key(op, lhs, rhs, size),
{
    let k: u128 = match op {
        BinOpKind::Add => 0,
        BinOpKind::Sub => 1,
        BinOpKind::Mul => 2,
        BinOpKind::And => 3,
        BinOpKind::Or => 4,
        BinOpKind::Xor => 5,
        BinOpKind::Shl => 6,
        BinOpKind::Shr => 7,
        BinOpKind::Sar => 8,
        BinOpKind::Rol => 9,
        BinOpKind::Ror => 10,
        BinOpKind::Rcl => 11,
        BinOpKind::Rcr => 12,
        BinOpKind::UMulHi => 13,
        BinOpKind::SMulHi => 14,
        BinOpKind::UDiv => 15,
        BinOpKind::SDiv => 16,
        BinOpKind::UMod => 17,
        BinOpKind::SMod => 18,
        BinOpKind::Pdep => 19,
        BinOpKind::Pext => 20,
    };
    let s: u128 = match size {
        OpSize::I8 => 0,
        OpSize::I16 => 1,
        OpSize::I32 => 2,
        OpSize::I64 => 3,
    };
    k * 0x4_0000_0000_0000_0000 + (lhs as u128) * 0x4_0000_0000 + (rhs as u128) * 4 + s
}

/// Ops that clear the table of available expressions.
pub open spec fn spec_is_flushing_op(op: Op) -> bool {
    match op {
        Op::StoreReg(_) | Op::StoreMem(_) | Op::StoreMemTSO(_) | Op::CmpFlags(_) | Op::AluFlags(_)
        | Op::WriteFlagsPopcnt(_) | Op::WriteFlagsCountZero(_) | Op::Syscall(_) => true,
        _ => false,
    }
}

pub(crate) fn is_flushing_op(op: &Op) -> (r: bool)
    ensures
        r == spec_is_flushing_op(*op),
{
    match op {
        Op::StoreReg(_) | Op::StoreMem(_) | Op::StoreMemTSO(_) | Op::CmpFlags(_) | Op::AluFlags(_)
        | Op::WriteFlagsPopcnt(_) | Op::WriteFlagsCountZero(_) | Op::Syscall(_) => true,
        _ => false,
    }
}

/// The statement after CSE, given the table of available expressions before it:
/// a `BinOp` with a result whose key is available becomes a copy of the earlier
/// result.
pub open spec fn cse_stmt(st: Stmt, env: Map<u128, Ref>) -> Stmt {
    if spec_is_flushing_op(st.op) {
        st
    } else {
        match (st.result, st.op) {
            (Some(_), Op::BinOp(b)) => {
                let key = binop_key(b.op, b.lhs, b.rhs, b.size);
                if env.contains_key(key) {
                    Stmt {
                        result: st.result,
                        op: Op::BinOp(BinOp { op: BinOpKind::Or, lhs: env[key], rhs: env[key], size: b.size }),
                    }
                } else {
                    st
                }
            },
            _ => st,
        }
    }
}

/// The table of available expressions after a statement.
pub open spec fn cse_env_after(st: Stmt, env: Map<u128, Ref>) -> Map<u128, Ref> {
    if spec_is_flushing_op(st.op) {
        Map::empty()
    } else {
        match (st.result, st.op) {
            (Some(r), Op::BinOp(b)) => {
                let key = binop_key(b.op, b.lhs, b.rhs, b.size);
                if env.contains_key(key) {
                    env
                } else {
                    env.insert(key, r)
                }
            },
            _ => env,
        }
    }
}

/// The table of available expressions before statement `n`, starting from `env0`.
pub open spec fn cse_env_from(s: Seq<Stmt>, n: nat, env0: Map<u128, Ref>) -> Map<u128, Ref>
    decreases n,
{
    if n == 0 || n > s.len() {
        env0
    } else {
        cse_env_after(s[n - 1], cse_env_from(s, (n - 1) as nat, env0))
    }
}

/// A block after CSE starting from the table `env0`.
pub open spec fn cse_block_from(s: Seq<Stmt>, env0: Map<u128, Ref>) -> Seq<Stmt> {
    Seq::new(s.len(), |i: int| cse_stmt(s[i], cse_env_from(s, i as nat, env0)))
}

/// A block after local CSE.
pub open spec fn cse_block(s: Seq<Stmt>) -> Seq<Stmt> {
    cse_block_from(s, Map::empty())
}

/// Run CSE over `stmts` starting from the table `seen`; returns the rewritten
/// statements and leaves in `seen` the table at the end of the block.
pub(crate) fn cse_stmts(stmts: Vec<Stmt>, seen: &mut HashMap<u128, u32>) -> (out: Vec<Stmt>)
    ensures
        out@ == cse_block_from(stmts@, old(seen)@),
        final(seen)@ == cse_env_from(stmts@, stmts@.len(), old(seen)@),
{
    broadcast use vstd::std_specs::vec::axiom_spec_into_iter;
    let ghost s = stmts@;
    let ghost env0 = seen@;
    let mut out: Vec<Stmt> = Vec::new();
    for stmt in it: stmts.into_iter()
        invariant
            it.seq() == s,
            out.len() == it.index(),
            seen@ == cse_env_from(s, it.index() as nat, env0),
            forall|i: int| 0 <= i < out.len() ==> out[i] == cse_stmt(s[i], cse_env_from(s, i as nat, env0)),
    {
        let mut new_stmt = stmt;
        if is_flushing_op(&new_stmt.op) {
            seen.clear();
        } else if let (Some(result), Op::BinOp(b)) = (new_stmt.result, &new_stmt.op) {
            let key = binop_key_exec(b.op, b.lhs, b.rhs, b.size);
            match seen.get(&key) {
                Some(prev) => {
                    let prev = *prev;
                    let size = b.size;
                    new_stmt.op = Op::BinOp(BinOp { op: BinOpKind::Or, lhs: prev, rhs: prev, size });
                },
                None => {
                    seen.insert(key, result);
                },
            }
        }
        out.push(new_stmt);
    }
    proof {
        assert(out@ =~= cse_block_from(s, env0));
    }
    out
}

fn cse_block_exec(stmts: Vec<Stmt>) -> (out: Vec<Stmt>)
    ensures
        out@ == cse_block(stmts@),
{
    let mut seen: HashMap<u128, u32> = HashMap::new();
    cse_stmts(stmts, &mut seen)
}

#[derive(Debug, Default, Clone, Copy, PartialEq, Eq)]
pub struct Cse;

impl Cse {
    #[must_use]
    pub fn new() -> Self {
        Self
    }
}

/// Per-block CSE.
pub fn common_subexpression_eliminate(func: Function) -> (out: Function)
    ensures
        blockwise(func, out, |s: Seq<Stmt>| cse_block(s)),
{
    map_blocks(func, &cse_block_exec, Ghost(|s: Seq<Stmt>| cse_block(s)))
}

impl Pass for Cse {
    fn name(&self) -> (r: &'static str)
        ensures
            r@ == "common_subexpression_eliminate"@,
    {
        "common_subexpression_eliminate"
    }

    fn run(&self, func: Function) -> (out: Function)
        ensures
            blockwise(func, out, |s: Seq<Stmt>| cse_block(s)),
    {
        common_subexpression_eliminate(func)
    }
}

/// Distinct binary operations get distinct table keys: equal keys mean the
/// same kind, operands and size.
pub proof fn law_binop_key_injective(
    o1: BinOpKind,
    l1: Ref,
    r1: Ref,
    s1: OpSize,
    o2: BinOpKind,
    l2: Ref,
    r2: Ref,
    s2: OpSize,
)
    requires
        binop_key(o1, l1, r1, s1) == binop_key(o2, l2, r2, s2),
    ensures
        o1 == o2,
        l1 == l2,
        r1 == r2,
        s1 == s2,
{
    let k1: u128 = kind_index(o1);
    let k2: u128 = kind_index(o2);
    let z1: u128 = size_index(s1);
    let z2: u128 = size_index(s2);
    let a1: u128 = l1 as u128;
    let a2: u128 = l2 as u128;
    let b1: u128 = r1 as u128;
    let b2: u128 = r2 as u128;
    assert(k1 < 32 && k2 < 32 && z1 < 4 && z2 < 4);
    assert(a1 < 0x1_0000_0000 && a2 < 0x1_0000_0000 && b1 < 0x1_0000_0000 && b2 < 0x1_0000_0000);
    assert(k1 == k2 && a1 == a2 && b1 == b2 && z1 == z2) by (bit_vector)
        requires
            k1 < 32,
            k2 < 32,
            z1 < 4,
            z2 < 4,
            a1 < 0x1_0000_0000,
            a2 < 0x1_0000_0000,
            b1 < 0x1_0000_0000,
            b2 < 0x1_0000_0000,
            (k1 * 0x4_0000_0000_0000_0000 + a1 * 0x4_0000_0000 + b1 * 4 + z1) as u128
                == (k2 * 0x4_0000_0000_0000_0000 + a2 * 0x4_0000_0000 + b2 * 4 + z2) as u128;
    assert(o1 == o2) by {
        assert(kind_index(o1) == kind_index(o2));
    }
    assert(s1 == s2) by {
        assert(size_index(s1) == size_index(s2));
    }
}

/// Every key in the table before statement `n` was made by an earlier
/// binary operation with a result, whose result the table holds for it.
proof fn lemma_cse_env_sound(s: Seq<Stmt>, n: nat)
    ensures
        forall|key: u128| #[trigger] cse_env_from(s, n, Map::empty()).contains_key(key) ==> exists|j: int| {
            &&& 0 <= j < n
            &&& j < s.len()
            &&& s[j].result == Some(cse_env_from(s, n, Map::empty())[key])
            &&& s[j].op matches Op::BinOp(b) && binop_key(b.op, b.lhs, b.rhs, b.size) == key
        },
    decreases n,
{
    if n > 0 && n <= s.len() {
        lemma_cse_env_sound(s, (n - 1) as nat);
        let prev = cse_env_from(s, (n - 1) as nat, Map::empty());
        let cur = cse_env_from(s, n, Map::empty());
        assert forall|key: u128| #[trigger] cur.contains_key(key) implies exists|j: int| {
            &&& 0 <= j < n
            &&& j < s.len()
            &&& s[j].result == Some(cur[key])
            &&& s[j].op matches Op::BinOp(b) && binop_key(b.op, b.lhs, b.rhs, b.size) == key
        } by {
            if prev.contains_key(key) && cur[key] == prev[key] {
                let j = choose|j: int| {
                    &&& 0 <= j < n - 1
                    &&& j < s.len()
                    &&& s[j].result == Some(prev[key])
                    &&& s[j].op matches Op::BinOp(b) && binop_key(b.op, b.lhs, b.rhs, b.size) == key
                };
            } else {
                let j = n - 1;
                assert(s[j].result == Some(cur[key]));
            }
        }
    }
}

/// Local CSE changes a statement only into a copy of the result of an
/// earlier binary operation with the same kind, operands and size; every
/// other statement is kept as it is.
pub proof fn law_cse_replaces_only_equal_binops(s: Seq<Stmt>, i: int)
    requires
        0 <= i < s.len(),
    ensures
        cse_block(s).len() == s.len(),
        cse_block(s)[i] != s[i] ==> {
            &&& s[i].result is Some
            &&& s[i].op matches Op::BinOp(b) && exists|j: int| {
                &&& 0 <= j < i
                &&& #[trigger] s[j].op == s[i].op
                &&& s[j].result is Some
                &&& cse_block(s)[i] == Stmt {
                    result: s[i].result,
                    op: Op::BinOp(BinOp { op: BinOpKind::Or, lhs: s[j].result->0, rhs: s[j].result->0, size: b.size }),
                }
            }
        },
{
    let env = cse_env_from(s, i as nat, Map::empty());
    assert(cse_block(s)[i] == cse_stmt(s[i], env));
    if cse_block(s)[i] != s[i] {
        lemma_cse_env_sound(s, i as nat);
        if let Op::BinOp(b) = s[i].op {
            let key = binop_key(b.op, b.lhs, b.rhs, b.size);
            assert(env.contains_key(key));
            let j = choose|j: int| {
                &&& 0 <= j < i
                &&& j < s.len()
                &&& s[j].result == Some(env[key])
                &&& s[j].op matches Op::BinOp(b2) && binop_key(b2.op, b2.lhs, b2.rhs, b2.size) == key
            };
            if let Op::BinOp(b2) = s[j].op {
                law_binop_key_injective(b2.op, b2.lhs, b2.rhs, b2.size, b.op, b.lhs, b.rhs, b.size);
                assert(s[j].op == s[i].op);
            }
        }
    }
}

} // verus!
