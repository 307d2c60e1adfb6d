//! Dead code elimination.
//!
//! A reverse liveness sweep seeds the live set from the operands of
//! side-effecting statements and propagates through statements whose result
//! is live; a forward filter then drops pure statements whose result is
//! unused. SSA + program order make a single reverse pass sufficient (operand
//! definitions precede uses).

use std::collections::HashSet;

use vstd::prelude::*;

use crate::ir::{op_reads, BasicBlock, Function, Op, Ref, Stmt};
use crate::passes::{lemma_select_keeps, select, select_exec, Pass};

verus! {

broadcast use vstd::std_specs::hash::group_hash_axioms;

/// Ops that can be dropped when their result is unused: dropping them cannot
/// change observable behaviour.
pub open spec fn spec_is_pure_for_dce(op: Op) -> bool {
    match op {
        Op::Constant(_)
        | Op::LoadReg(_)
        | Op::BinOp(_)
        | Op::Compare(_)
        | Op::Select(_)
        | Op::LoadMem(_)
        | Op::WriteFlags(_)
        | Op::ReadFlag(_)
        | Op::WriteFlagsFp(_)
        | Op::VecConstant(_)
        | Op::LoadVecReg(_)
        | Op::LoadVecRegHi(_)
        | Op::WriteFlagsPtest(_)
        | Op::WriteFlagsPtestYmm(_)
        | Op::VecTbl2(_)
        | Op::VecAes(_)
        | Op::VecAesKeygenAssist(_)
        | Op::VecSha(_)
        | Op::Bswap(_)
        | Op::Crc32c(_)
        | Op::VecGather(_)
        | Op::X87Load(_)
        | Op::LoadCarry(_)
        | Op::ReadCarryOut(_) => true,
        _ => false,
    }
}

/// True iff dropping the statement (when its result is unused) cannot change
/// observable behaviour. Side-effecting ops stay regardless of liveness.
fn is_pure_for_dce(op: &Op) -> (r: bool)
    ensures
        r == spec_is_pure_for_dce(*op),
{
    match op {
        Op::Constant(_)
        | Op::LoadReg(_)
        | Op::BinOp(_)
        | Op::Compare(_)
        | Op::Select(_)
        | Op::LoadMem(_)
        | Op::WriteFlags(_)
        | Op::ReadFlag(_)
        | Op::WriteFlagsFp(_)
        | Op::VecConstant(_)
        | Op::LoadVecReg(_)
        | Op::LoadVecRegHi(_)
        | Op::WriteFlagsPtest(_)
        | Op::WriteFlagsPtestYmm(_)
        | Op::VecTbl2(_)
        | Op::VecAes(_)
        | Op::VecAesKeygenAssist(_)
        | Op::VecSha(_)
        | Op::Bswap(_)
        | Op::Crc32c(_)
        | Op::VecGather(_)
        | Op::X87Load(_)
        | Op::LoadCarry(_)
        | Op::ReadCarryOut(_) => true,
        _ => false,
    }
}

/// Whether a statement is kept given the live refs: it has side effects or
/// its result is live.
pub open spec fn dce_keeps(st: Stmt, live: Set<Ref>) -> bool {
    !spec_is_pure_for_dce(st.op) || (st.result is Some && live.contains(st.result.unwrap()))
}

/// The live set before a statement, given the live set after it.
pub open spec fn dce_step(st: Stmt, live: Set<Ref>) -> Set<Ref> {
    if dce_keeps(st, live) {
        live.union(Set::new(|r: Ref| op_reads(st.op, r)))
    } else {
        live
    }
}

/// The live set after sweeping `s[j..]` backwards, starting from `live`.
pub open spec fn dce_sweep(s: Seq<Stmt>, j: int, live: Set<Ref>) -> Set<Ref>
    decreases s.len() - j,
{
    if j < 0 || j >= s.len() {
        live
    } else {
        dce_step(s[j], dce_sweep(s, j + 1, live))
    }
}

/// The live set after sweeping blocks `k..` backwards (the whole function when `k` is 0).
pub open spec fn dce_live_from(blocks: Seq<BasicBlock>, k: int) -> Set<Ref>
    decreases blocks.len() - k,
{
    if k < 0 || k >= blocks.len() {
        Set::empty()
    } else {
        dce_sweep(blocks[k].stmts@, 0, dce_live_from(blocks, k + 1))
    }
}

/// The refs live anywhere in the function.
pub open spec fn dce_live(func: Function) -> Set<Ref> {
    dce_live_from(func.blocks@, 0)
}

/// A block's statements after DCE with the function's live set.
pub open spec fn dce_block(s: Seq<Stmt>, live: Set<Ref>) -> Seq<Stmt> {
    select(s, Set::new(|j: int| 0 <= j < s.len() && dce_keeps(s[j], live)))
}

/// Insert every SSA ref the op reads as an operand into `live`.
fn collect_operand_refs(op: &Op, live: &mut HashSet<u32>)
    ensures
        final(live)@ == old(live)@.union(Set::new(|r: Ref| op_reads(*op, r))),
{
    match op {
        Op::StoreReg(_) | Op::BinOp(_) | Op::WideDiv(_) | Op::Compare(_) | Op::Select(_) | Op::LoadMem(_) | Op::StoreMem(_) | Op::LoadMemTSO(_) | Op::StoreMemTSO(_) | Op::AtomicCmpxchg(_) => collect_operand_refs_0(op, live),
        Op::AtomicXchg(_) | Op::AtomicXadd(_) | Op::AtomicCmpxchgPair(_) | Op::CondJump(_) | Op::CmpFlags(_) | Op::AluFlags(_) | Op::AluFlagsPreserveCarry(_) | Op::JumpReg(_) | Op::CallReg(_) | Op::TrapIf(_) => collect_operand_refs_1(op, live),
        Op::Extend(_) | Op::Truncate(_) | Op::FpBinOp(_) | Op::WriteFlags(_) | Op::ReadFlag(_) | Op::CondJumpFlags(_) | Op::VecBinOp(_) | Op::VecClMul(_) | Op::VecF16Cvt(_) | Op::StoreVecReg(_) => collect_operand_refs_2(op, live),
        Op::LoadVec(_) | Op::StoreVec(_) | Op::VecFpBinOp(_) | Op::VecFpScalarBinOp(_) | Op::XmmFromGpr(_) | Op::GprFromXmm(_) | Op::VecCmp(_) | Op::PcmpStrIndex(_) | Op::PcmpStrMask(_) | Op::PcmpStrFlags(_) => collect_operand_refs_3(op, live),
        Op::VecShuffle32x4(_) | Op::VecUnpack(_) | Op::VecShiftImm(_) | Op::VecShiftBytes(_) | Op::IntToFpScalar(_) | Op::FpToIntScalar(_) | Op::FpCvtScalar(_) | Op::VecShuffle2Src(_) | Op::VecInsertLane(_) | Op::VecExtractLaneU(_) => collect_operand_refs_4(op, live),
        Op::VecMaskMsb(_) | Op::WriteFlagsFp(_) | Op::VecShuffleH4(_) | Op::VecMaskFp(_) | Op::VecFpCompare(_) | Op::VecPshufb(_) | Op::VecAbs(_) | Op::VecAlignr(_) | Op::VecExtend(_) | Op::VecFpRound(_) => collect_operand_refs_5(op, live),
        Op::Popcnt(_) | Op::Lzcnt(_) | Op::Tzcnt(_) | Op::WriteFlagsPopcnt(_) | Op::WriteFlagsCountZero(_) | Op::VecBlend(_) | Op::WriteFlagsPtest(_) | Op::WriteFlagsPtestYmm(_) | Op::VecTbl2(_) | Op::VecAes(_) => collect_operand_refs_6(op, live),
        Op::VecAesKeygenAssist(_) | Op::VecSha(_) | Op::Bswap(_) | Op::Crc32c(_) | Op::VecGather(_) | Op::StoreVecRegHi(_) | Op::VecFpFma(_) | Op::VecFpScalarFma(_) | Op::X87Store(_) | Op::X87Push(_) => collect_operand_refs_7(op, live),
        Op::ReadCarryOut(_) | Op::StoreCarry(_) | Op::StoreRflags(_) | Op::StoreRflagsFromNzcv(_) | Op::StoreRflagsFromBits(_) => collect_operand_refs_8(op, live),
        _ => {
            assert(live@ =~= old(live)@.union(Set::new(|r: Ref| op_reads(*op, r))));
        },
    }
}

#[verifier::spinoff_prover]
fn collect_operand_refs_0(op: &Op, live: &mut HashSet<u32>)
    requires
        matches!(*op, Op::StoreReg(_) | Op::BinOp(_) | Op::WideDiv(_) | Op::Compare(_) | Op::Select(_) | Op::LoadMem(_) | Op::StoreMem(_) | Op::LoadMemTSO(_) | Op::StoreMemTSO(_) | Op::AtomicCmpxchg(_)),
    ensures
        final(live)@ == old(live)@.union(Set::new(|r: Ref| op_reads(*op, r))),
{
    let ghost before = live@;
    match op {
        Op::StoreReg(x) => {
            live.insert(x.value);
        },
        Op::BinOp(x) => {
            live.insert(x.lhs);
            live.insert(x.rhs);
        },
        Op::WideDiv(x) => {
            live.insert(x.high);
            live.insert(x.low);
            live.insert(x.divisor);
        },
        Op::Compare(x) => {
            live.insert(x.lhs);
            live.insert(x.rhs);
        },
        Op::Select(x) => {
            live.insert(x.true_value);
            live.insert(x.false_value);
        },
        Op::LoadMem(x) => {
            live.insert(x.addr);
        },
        Op::StoreMem(x) => {
            live.insert(x.addr);
            live.insert(x.value);
        },
        Op::LoadMemTSO(x) => {
            live.insert(x.addr);
        },
        Op::StoreMemTSO(x) => {
            live.insert(x.addr);
            live.insert(x.value);
        },
        Op::AtomicCmpxchg(x) => {
            live.insert(x.addr);
            live.insert(x.expected);
            live.insert(x.new_value);
        },
        _ => {},
    }
    assert(live@ =~= before.union(Set::new(|r: Ref| op_reads(*op, r))));
}

#[verifier::spinoff_prover]
fn collect_operand_refs_1(op: &Op, live: &mut HashSet<u32>)
    requires
        matches!(*op, Op::AtomicXchg(_) | Op::AtomicXadd(_) | Op::AtomicCmpxchgPair(_) | Op::CondJump(_) | Op::CmpFlags(_) | Op::AluFlags(_) | Op::AluFlagsPreserveCarry(_) | Op::JumpReg(_) | Op::CallReg(_) | Op::TrapIf(_)),
    ensures
        final(live)@ == old(live)@.union(Set::new(|r: Ref| op_reads(*op, r))),
{
    let ghost before = live@;
    match op {
        Op::AtomicXchg(x) => {
            live.insert(x.addr);
            live.insert(x.value);
        },
        Op::AtomicXadd(x) => {
            live.insert(x.addr);
            live.insert(x.value);
        },
        Op::AtomicCmpxchgPair(x) => {
            live.insert(x.addr);
            live.insert(x.expected_low);
            live.insert(x.expected_high);
            live.insert(x.new_low);
            live.insert(x.new_high);
        },
        Op::CondJump(x) => {
            live.insert(x.cond);
        },
        Op::CmpFlags(x) => {
            live.insert(x.lhs);
            live.insert(x.rhs);
        },
        Op::AluFlags(x) => {
            live.insert(x.lhs);
            live.insert(x.rhs);
        },
        Op::AluFlagsPreserveCarry(x) => {
            live.insert(x.lhs);
            live.insert(x.rhs);
        },
        Op::JumpReg(x) => {
            live.insert(x.target);
        },
        Op::CallReg(x) => {
            live.insert(x.target);
        },
        Op::TrapIf(x) => {
            live.insert(x.condition);
        },
        _ => {},
    }
    assert(live@ =~= before.union(Set::new(|r: Ref| op_reads(*op, r))));
}

#[verifier::spinoff_prover]
fn collect_operand_refs_2(op: &Op, live: &mut HashSet<u32>)
    requires
        matches!(*op, Op::Extend(_) | Op::Truncate(_) | Op::FpBinOp(_) | Op::WriteFlags(_) | Op::ReadFlag(_) | Op::CondJumpFlags(_) | Op::VecBinOp(_) | Op::VecClMul(_) | Op::VecF16Cvt(_) | Op::StoreVecReg(_)),
    ensures
        final(live)@ == old(live)@.union(Set::new(|r: Ref| op_reads(*op, r))),
{
    let ghost before = live@;
    match op {
        Op::Extend(x) => {
            live.insert(x.value);
        },
        Op::Truncate(x) => {
            live.insert(x.value);
        },
        Op::FpBinOp(x) => {
            live.insert(x.lhs);
            live.insert(x.rhs);
        },
        Op::WriteFlags(x) => {
            live.insert(x.lhs);
            live.insert(x.rhs);
        },
        Op::ReadFlag(x) => {
            live.insert(x.flags);
        },
        Op::CondJumpFlags(x) => {
            live.insert(x.flags);
        },
        Op::VecBinOp(x) => {
            live.insert(x.lhs);
            live.insert(x.rhs);
        },
        Op::VecClMul(x) => {
            live.insert(x.lhs);
            live.insert(x.rhs);
        },
        Op::VecF16Cvt(x) => {
            live.insert(x.src);
        },
        Op::StoreVecReg(x) => {
            live.insert(x.value);
        },
        _ => {},
    }
    assert(live@ =~= before.union(Set::new(|r: Ref| op_reads(*op, r))));
}

#[verifier::spinoff_prover]
fn collect_operand_refs_3(op: &Op, live: &mut HashSet<u32>)
    requires
        matches!(*op, Op::LoadVec(_) | Op::StoreVec(_) | Op::VecFpBinOp(_) | Op::VecFpScalarBinOp(_) | Op::XmmFromGpr(_) | Op::GprFromXmm(_) | Op::VecCmp(_) | Op::PcmpStrIndex(_) | Op::PcmpStrMask(_) | Op::PcmpStrFlags(_)),
    ensures
        final(live)@ == old(live)@.union(Set::new(|r: Ref| op_reads(*op, r))),
{
    let ghost before = live@;
    match op {
        Op::LoadVec(x) => {
            live.insert(x.addr);
        },
        Op::StoreVec(x) => {
            live.insert(x.addr);
            live.insert(x.value);
        },
        Op::VecFpBinOp(x) => {
            live.insert(x.lhs);
            live.insert(x.rhs);
        },
        Op::VecFpScalarBinOp(x) => {
            live.insert(x.lhs);
            live.insert(x.rhs);
        },
        Op::XmmFromGpr(x) => {
            live.insert(x.value);
        },
        Op::GprFromXmm(x) => {
            live.insert(x.value);
        },
        Op::VecCmp(x) => {
            live.insert(x.lhs);
            live.insert(x.rhs);
        },
        Op::PcmpStrIndex(x) => {
            live.insert(x.lhs);
            live.insert(x.rhs);
            if let Some(v) = x.lhs_len {
                live.insert(v);
            }
            if let Some(v) = x.rhs_len {
                live.insert(v);
            }
        },
        Op::PcmpStrMask(x) => {
            live.insert(x.lhs);
            live.insert(x.rhs);
            if let Some(v) = x.lhs_len {
                live.insert(v);
            }
            if let Some(v) = x.rhs_len {
                live.insert(v);
            }
        },
        Op::PcmpStrFlags(x) => {
            live.insert(x.lhs);
            live.insert(x.rhs);
            if let Some(v) = x.lhs_len {
                live.insert(v);
            }
            if let Some(v) = x.rhs_len {
                live.insert(v);
            }
        },
        _ => {},
    }
    assert(live@ =~= before.union(Set::new(|r: Ref| op_reads(*op, r))));
}

#[verifier::spinoff_prover]
fn collect_operand_refs_4(op: &Op, live: &mut HashSet<u32>)
    requires
        matches!(*op, Op::VecShuffle32x4(_) | Op::VecUnpack(_) | Op::VecShiftImm(_) | Op::VecShiftBytes(_) | Op::IntToFpScalar(_) | Op::FpToIntScalar(_) | Op::FpCvtScalar(_) | Op::VecShuffle2Src(_) | Op::VecInsertLane(_) | Op::VecExtractLaneU(_)),
    ensures
        final(live)@ == old(live)@.union(Set::new(|r: Ref| op_reads(*op, r))),
{
    let ghost before = live@;
    match op {
        Op::VecShuffle32x4(x) => {
            live.insert(x.src);
        },
        Op::VecUnpack(x) => {
            live.insert(x.lhs);
            live.insert(x.rhs);
        },
        Op::VecShiftImm(x) => {
            live.insert(x.src);
        },
        Op::VecShiftBytes(x) => {
            live.insert(x.src);
        },
        Op::IntToFpScalar(x) => {
            live.insert(x.value);
        },
        Op::FpToIntScalar(x) => {
            live.insert(x.value);
        },
        Op::FpCvtScalar(x) => {
            live.insert(x.lhs);
            live.insert(x.src);
        },
        Op::VecShuffle2Src(x) => {
            live.insert(x.lhs);
            live.insert(x.rhs);
        },
        Op::VecInsertLane(x) => {
            live.insert(x.lhs_xmm);
            live.insert(x.value);
        },
        Op::VecExtractLaneU(x) => {
            live.insert(x.src_xmm);
        },
        _ => {},
    }
    assert(live@ =~= before.union(Set::new(|r: Ref| op_reads(*op, r))));
}

#[verifier::spinoff_prover]
fn collect_operand_refs_5(op: &Op, live: &mut HashSet<u32>)
    requires
        matches!(*op, Op::VecMaskMsb(_) | Op::WriteFlagsFp(_) | Op::VecShuffleH4(_) | Op::VecMaskFp(_) | Op::VecFpCompare(_) | Op::VecPshufb(_) | Op::VecAbs(_) | Op::VecAlignr(_) | Op::VecExtend(_) | Op::VecFpRound(_)),
    ensures
        final(live)@ == old(live)@.union(Set::new(|r: Ref| op_reads(*op, r))),
{
    let ghost before = live@;
    match op {
        Op::VecMaskMsb(x) => {
            live.insert(x.src_xmm);
        },
        Op::WriteFlagsFp(x) => {
            live.insert(x.lhs);
            live.insert(x.rhs);
        },
        Op::VecShuffleH4(x) => {
            live.insert(x.src);
        },
        Op::VecMaskFp(x) => {
            live.insert(x.src_xmm);
        },
        Op::VecFpCompare(x) => {
            live.insert(x.lhs);
            live.insert(x.rhs);
        },
        Op::VecPshufb(x) => {
            live.insert(x.src);
            live.insert(x.mask);
        },
        Op::VecAbs(x) => {
            live.insert(x.src);
        },
        Op::VecAlignr(x) => {
            live.insert(x.lhs);
            live.insert(x.rhs);
        },
        Op::VecExtend(x) => {
            live.insert(x.src);
        },
        Op::VecFpRound(x) => {
            live.insert(x.lhs);
            live.insert(x.src);
        },
        _ => {},
    }
    assert(live@ =~= before.union(Set::new(|r: Ref| op_reads(*op, r))));
}

#[verifier::spinoff_prover]
fn collect_operand_refs_6(op: &Op, live: &mut HashSet<u32>)
    requires
        matches!(*op, Op::Popcnt(_) | Op::Lzcnt(_) | Op::Tzcnt(_) | Op::WriteFlagsPopcnt(_) | Op::WriteFlagsCountZero(_) | Op::VecBlend(_) | Op::WriteFlagsPtest(_) | Op::WriteFlagsPtestYmm(_) | Op::VecTbl2(_) | Op::VecAes(_)),
    ensures
        final(live)@ == old(live)@.union(Set::new(|r: Ref| op_reads(*op, r))),
{
    let ghost before = live@;
    match op {
        Op::Popcnt(x) => {
            live.insert(x.value);
        },
        Op::Lzcnt(x) => {
            live.insert(x.value);
        },
        Op::Tzcnt(x) => {
            live.insert(x.value);
        },
        Op::WriteFlagsPopcnt(x) => {
            live.insert(x.src);
        },
        Op::WriteFlagsCountZero(x) => {
            live.insert(x.src);
            live.insert(x.result);
        },
        Op::VecBlend(x) => {
            live.insert(x.dst);
            live.insert(x.src);
            live.insert(x.mask);
        },
        Op::WriteFlagsPtest(x) => {
            live.insert(x.lhs);
            live.insert(x.rhs);
        },
        Op::WriteFlagsPtestYmm(x) => {
            live.insert(x.lo_lhs);
            live.insert(x.lo_rhs);
            live.insert(x.hi_lhs);
            live.insert(x.hi_rhs);
        },
        Op::VecTbl2(x) => {
            live.insert(x.src_lo);
            live.insert(x.src_hi);
            live.insert(x.idx);
        },
        Op::VecAes(x) => {
            live.insert(x.src);
            live.insert(x.key);
        },
        _ => {},
    }
    assert(live@ =~= before.union(Set::new(|r: Ref| op_reads(*op, r))));
}

#[verifier::spinoff_prover]
fn collect_operand_refs_7(op: &Op, live: &mut HashSet<u32>)
    requires
        matches!(*op, Op::VecAesKeygenAssist(_) | Op::VecSha(_) | Op::Bswap(_) | Op::Crc32c(_) | Op::VecGather(_) | Op::StoreVecRegHi(_) | Op::VecFpFma(_) | Op::VecFpScalarFma(_) | Op::X87Store(_) | Op::X87Push(_)),
    ensures
        final(live)@ == old(live)@.union(Set::new(|r: Ref| op_reads(*op, r))),
{
    let ghost before = live@;
    match op {
        Op::VecAesKeygenAssist(x) => {
            live.insert(x.src);
        },
        Op::VecSha(x) => {
            live.insert(x.a);
            live.insert(x.b);
            live.insert(x.wk);
        },
        Op::Bswap(x) => {
            live.insert(x.value);
        },
        Op::Crc32c(x) => {
            live.insert(x.crc);
            live.insert(x.data);
        },
        Op::VecGather(x) => {
            live.insert(x.base);
            live.insert(x.index);
            live.insert(x.mask);
            live.insert(x.prev);
        },
        Op::StoreVecRegHi(x) => {
            live.insert(x.value);
        },
        Op::VecFpFma(x) => {
            live.insert(x.a);
            live.insert(x.b);
            live.insert(x.c);
        },
        Op::VecFpScalarFma(x) => {
            live.insert(x.a);
            live.insert(x.b);
            live.insert(x.c);
            live.insert(x.scalar_upper);
        },
        Op::X87Store(x) => {
            live.insert(x.value);
        },
        Op::X87Push(x) => {
            live.insert(x.value);
        },
        _ => {},
    }
    assert(live@ =~= before.union(Set::new(|r: Ref| op_reads(*op, r))));
}

#[verifier::spinoff_prover]
fn collect_operand_refs_8(op: &Op, live: &mut HashSet<u32>)
    requires
        matches!(*op, Op::ReadCarryOut(_) | Op::StoreCarry(_) | Op::StoreRflags(_) | Op::StoreRflagsFromNzcv(_) | Op::StoreRflagsFromBits(_)),
    ensures
        final(live)@ == old(live)@.union(Set::new(|r: Ref| op_reads(*op, r))),
{
    let ghost before = live@;
    match op {
        Op::ReadCarryOut(x) => {
            live.insert(x.flags);
        },
        Op::StoreCarry(x) => {
            live.insert(x.value);
        },
        Op::StoreRflags(x) => {
            live.insert(x.value);
        },
        Op::StoreRflagsFromNzcv(x) => {
            if let Some(v) = x.pf {
                live.insert(v);
            }
            if let Some(v) = x.af {
                live.insert(v);
            }
        },
        Op::StoreRflagsFromBits(x) => {
            if let Some(v) = x.pf {
                live.insert(v);
            }
            if let Some(v) = x.af {
                live.insert(v);
            }
            live.insert(x.zf);
            live.insert(x.sf);
            live.insert(x.of);
        },
        _ => {},
    }
    assert(live@ =~= before.union(Set::new(|r: Ref| op_reads(*op, r))));
}

/// `out` keeps the entry and block ids of `func`, and each block keeps the
/// statements that the function-wide liveness set makes live.
pub open spec fn dce_result(func: Function, out: Function) -> bool {
    &&& out.entry == func.entry
    &&& out.blocks.len() == func.blocks.len()
    &&& forall|i: int|
        0 <= i < func.blocks.len() ==> {
            &&& (#[trigger] out.blocks[i]).id == func.blocks[i].id
            &&& out.blocks[i].stmts@ == dce_block(func.blocks[i].stmts@, dce_live(func))
        }
}

#[derive(Debug, Default, Clone, Copy, PartialEq, Eq)]
pub struct Dce;

impl Dce {
    #[must_use]
    pub fn new() -> Self {
        Self
    }
}

/// Dead code elimination with function-global liveness.
///
/// SSA refs are function-scoped, so a value defined in one block may be used
/// in a later block: liveness is swept across all blocks (in program order,
/// reversed) into one shared live set before filtering. Within the function,
/// SSA + program order guarantees defs precede uses, so a single reverse pass
/// over the concatenation suffices.
pub fn dead_code_eliminate(func: Function) -> (out: Function)
    ensures
        dce_result(func, out),
{
    broadcast use vstd::std_specs::vec::axiom_spec_into_iter;
    // Pass 1: reverse liveness sweep over every statement in the function.
    let mut live: HashSet<u32> = HashSet::new();
    let nb = func.blocks.len();
    let mut bi = nb;
    while bi > 0
        invariant
            bi <= nb == func.blocks.len(),
            live@ == dce_live_from(func.blocks@, bi as int),
        decreases bi,
    {
        bi = bi - 1;
        let block = &func.blocks[bi];
        let ghost s = block.stmts@;
        let ghost after = live@;
        let mut si = block.stmts.len();
        while si > 0
            invariant
                si <= s.len(),
                s == block.stmts@,
                live@ == dce_sweep(s, si as int, after),
            decreases si,
        {
            si = si - 1;
            let stmt = &block.stmts[si];
            let impure = !is_pure_for_dce(&stmt.op);
            let result_is_live = match stmt.result {
                Some(r) => live.contains(&r),
                None => false,
            };
            if impure || result_is_live {
                collect_operand_refs(&stmt.op, &mut live);
            }
        }
    }
    let ghost all_live = live@;
    let ghost orig = func.blocks@;
    // Pass 2: forward filter per block against the global live set.
    let Function { blocks, entry } = func;
    let mut out: Vec<BasicBlock> = Vec::new();
    for block in it: blocks.into_iter()
        invariant
            it.seq() == orig,
            out.len() == it.index(),
            live@ == all_live,
            forall|i: int|
                0 <= i < out.len() ==> {
                    &&& (#[trigger] out[i]).id == orig[i].id
                    &&& out[i].stmts@ == dce_block(orig[i].stmts@, all_live)
                },
    {
        let BasicBlock { id, stmts } = block;
        let ghost s = stmts@;
        let live_ref = &live;
        let keep_vec = keep_flags(&stmts, live_ref);
        let keep_ref = &keep_vec;
        let keep = |j: usize| -> (b: bool)
            ensures
                b == (j < keep_ref@.len() && keep_ref@[j as int]),
            { j < keep_ref.len() && keep_ref[j] };
        let kept = select_exec(stmts, &keep, Ghost(Set::new(|j: int| 0 <= j < s.len() && dce_keeps(s[j], all_live))));
        out.push(BasicBlock { id, stmts: kept });
    }
    Function { blocks: out, entry }
}

/// Whether each statement is kept under the live set.
fn keep_flags(stmts: &Vec<Stmt>, live: &HashSet<u32>) -> (r: Vec<bool>)
    ensures
        r.len() == stmts.len(),
        forall|j: int| 0 <= j < r.len() ==> r[j] == dce_keeps(stmts[j], live@),
{
    let mut r: Vec<bool> = Vec::new();
    let mut j: usize = 0;
    while j < stmts.len()
        invariant
            j <= stmts.len(),
            r.len() == j,
            forall|k: int| 0 <= k < r.len() ==> r[k] == dce_keeps(stmts[k], live@),
        decreases stmts.len() - j,
    {
        let stmt = &stmts[j];
        let impure = !is_pure_for_dce(&stmt.op);
        let result_is_live = match stmt.result {
            Some(res) => live.contains(&res),
            None => false,
        };
        r.push(impure || result_is_live);
        j = j + 1;
    }
    r
}

impl Pass for Dce {
    fn name(&self) -> (r: &'static str)
        ensures
            r@ == "dead_code_eliminate"@,
    {
        "dead_code_eliminate"
    }

    fn run(&self, func: Function) -> (out: Function)
        ensures
            dce_result(func, out),
    {
        dead_code_eliminate(func)
    }
}

/// Ops that act on registers, memory, flags state or control flow (stores,
/// atomics, jumps, calls, returns, traps, fences and the like), that may
/// trap (wide division), that order memory (TSO loads), or that read machine
/// state (CPUID, XGETBV, RDTSC).
pub open spec fn has_side_effect(op: Op) -> bool {
    match op {
        Op::WideDiv(_) | Op::LoadMemTSO(_) | Op::Cpuid(_) | Op::Xgetbv(_) | Op::Rdtsc(_) => true,
        Op::StoreReg(_) | Op::StoreMem(_) | Op::StoreMemTSO(_) | Op::AtomicCmpxchg(_) | Op::AtomicXchg(_)
        | Op::AtomicXadd(_) | Op::AtomicCmpxchgPair(_) | Op::Jump(_) | Op::CondJump(_) | Op::CondJumpFlags(_)
        | Op::Return(_) | Op::JumpReg(_) | Op::JumpRel(_) | Op::CondJumpRel(_) | Op::CallRel(_) | Op::CallReg(_)
        | Op::RetAdjusted(_) | Op::Syscall(_) | Op::Trap(_) | Op::TrapIf(_) | Op::Fence(_) | Op::RspAdjust(_)
        | Op::StoreVecReg(_) | Op::StoreVec(_) | Op::StoreVecRegHi(_) | Op::RepStos(_) | Op::RepMovs(_)
        | Op::X87Store(_) | Op::X87Push(_) | Op::X87Pop(_) | Op::StoreCarry(_) | Op::StoreRflags(_)
        | Op::StoreRflagsFromNzcv(_) | Op::StoreRflagsFromBits(_) | Op::CmpFlags(_) | Op::AluFlags(_)
        | Op::AluFlagsPreserveCarry(_) | Op::InlineAsm(_) => true,
        _ => false,
    }
}

/// DCE keeps every statement with a side effect: each such statement of a
/// block of `func` is still in the same block of the result.
pub proof fn law_dce_keeps_side_effects(func: Function, out: Function, i: int, j: int)
    requires
        dce_result(func, out),
        0 <= i < func.blocks.len(),
        0 <= j < func.blocks[i].stmts@.len(),
        has_side_effect(func.blocks[i].stmts@[j].op),
    ensures
        out.blocks[i].stmts@.contains(func.blocks[i].stmts@[j]),
{
    let st = func.blocks[i].stmts@[j];
    assert(!spec_is_pure_for_dce(st.op));
    law_dce_keeps_impure(func.blocks[i].stmts@, dce_live(func), j);
}

proof fn lemma_sweep_below(s: Seq<Stmt>, j: int, live: Set<Ref>)
    requires
        0 <= j,
    ensures
        dce_sweep(s, j, live).subset_of(dce_sweep(s, 0, live)),
    decreases j,
{
    if j > 0 {
        lemma_sweep_below(s, j - 1, live);
        if j - 1 < s.len() {
            assert(dce_sweep(s, j, live).subset_of(dce_step(s[j - 1], dce_sweep(s, j, live))));
        } else {
            lemma_sweep_grows(s, 0, live);
        }
    }
}

proof fn lemma_live_from_below(blocks: Seq<BasicBlock>, k: int)
    requires
        0 <= k,
    ensures
        dce_live_from(blocks, k).subset_of(dce_live_from(blocks, 0)),
    decreases k,
{
    if k > 0 {
        lemma_live_from_below(blocks, k - 1);
        if k - 1 < blocks.len() {
            lemma_sweep_grows(blocks[k - 1].stmts@, 0, dce_live_from(blocks, k));
        }
    }
}

/// What a statement with a side effect reads stays defined: DCE keeps every
/// statement, in any block, that defines a ref read by a statement with a
/// side effect.
pub proof fn law_dce_keeps_defs_of_effect_reads(func: Function, out: Function, i: int, j: int, r: Ref, i2: int, j2: int)
    requires
        dce_result(func, out),
        0 <= i < func.blocks.len(),
        0 <= j < func.blocks[i].stmts@.len(),
        has_side_effect(func.blocks[i].stmts@[j].op),
        op_reads(func.blocks[i].stmts@[j].op, r),
        0 <= i2 < func.blocks.len(),
        0 <= j2 < func.blocks[i2].stmts@.len(),
        func.blocks[i2].stmts@[j2].result == Some(r),
    ensures
        out.blocks[i2].stmts@.contains(func.blocks[i2].stmts@[j2]),
{
    let blocks = func.blocks@;
    let s = blocks[i].stmts@;
    let t = s[j];
    assert(!spec_is_pure_for_dce(t.op));
    let after = dce_sweep(s, j + 1, dce_live_from(blocks, i + 1));
    assert(dce_keeps(t, after));
    assert(dce_sweep(s, j, dce_live_from(blocks, i + 1)).contains(r));
    lemma_sweep_below(s, j, dce_live_from(blocks, i + 1));
    assert(dce_live_from(blocks, i).contains(r));
    lemma_live_from_below(blocks, i);
    assert(dce_live(func).contains(r));
    let s2 = blocks[i2].stmts@;
    assert(dce_keeps(s2[j2], dce_live(func)));
    lemma_select_keeps(s2, Set::new(|x: int| 0 <= x < s2.len() && dce_keeps(s2[x], dce_live(func))), j2);
}

/// Side effects survive: every statement whose op is not pure is kept by
/// DCE, whatever the live set.
pub proof fn law_dce_keeps_impure(s: Seq<Stmt>, live: Set<Ref>, j: int)
    requires
        0 <= j < s.len(),
        !spec_is_pure_for_dce(s[j].op),
    ensures
        dce_block(s, live).contains(s[j]),
{
    lemma_select_keeps(s, Set::new(|i: int| 0 <= i < s.len() && dce_keeps(s[i], live)), j);
}

proof fn lemma_sweep_grows(s: Seq<Stmt>, j: int, live: Set<Ref>)
    ensures
        live.subset_of(dce_sweep(s, j, live)),
    decreases s.len() - j,
{
    if 0 <= j < s.len() {
        lemma_sweep_grows(s, j + 1, live);
    }
}

proof fn lemma_sweep_drop_last(s: Seq<Stmt>, j: int, live: Set<Ref>)
    requires
        s.len() > 0,
        0 <= j < s.len(),
    ensures
        dce_sweep(s, j, live) == dce_sweep(s.drop_last(), j, dce_step(s.last(), live)),
    decreases s.len() - j,
{
    let y = dce_step(s.last(), live);
    if j < s.len() - 1 {
        lemma_sweep_drop_last(s, j + 1, live);
        assert(s.drop_last()[j] == s[j]);
        assert(dce_sweep(s, j, live) == dce_step(s[j], dce_sweep(s, j + 1, live)));
        assert(dce_sweep(s.drop_last(), j, y) == dce_step(s.drop_last()[j], dce_sweep(s.drop_last(), j + 1, y)));
    } else {
        assert(dce_sweep(s, j + 1, live) == live);
        assert(dce_sweep(s, j, live) == dce_step(s[j], dce_sweep(s, j + 1, live)));
        assert(dce_sweep(s.drop_last(), j, y) == y);
    }
}

proof fn lemma_select_ext(s: Seq<Stmt>, k1: Set<int>, k2: Set<int>)
    requires
        forall|j: int| 0 <= j < s.len() ==> (k1.contains(j) <==> k2.contains(j)),
    ensures
        select(s, k1) == select(s, k2),
    decreases s.len(),
{
    if s.len() > 0 {
        lemma_select_ext(s.drop_last(), k1, k2);
    }
}

/// Dropping the statements DCE drops leaves the liveness sweep unchanged,
/// when the sweep stays within `live_all`.
proof fn lemma_sweep_kept(s: Seq<Stmt>, start: Set<Ref>, live_all: Set<Ref>)
    requires
        dce_sweep(s, 0, start).subset_of(live_all),
    ensures
        dce_sweep(dce_block(s, live_all), 0, start) == dce_sweep(s, 0, start),
    decreases s.len(),
{
    if s.len() > 0 {
        let sp = s.drop_last();
        let last = s.last();
        let y = dce_step(last, start);
        lemma_sweep_drop_last(s, 0, start);
        lemma_sweep_kept(sp, y, live_all);
        let k = Set::new(|j: int| 0 <= j < s.len() && dce_keeps(s[j], live_all));
        let kp = Set::new(|j: int| 0 <= j < sp.len() && dce_keeps(sp[j], live_all));
        lemma_select_ext(sp, k, kp);
        if dce_keeps(last, live_all) {
            let t = dce_block(s, live_all);
            assert(t.last() == last);
            assert(t.drop_last() =~= dce_block(sp, live_all));
            lemma_sweep_drop_last(t, 0, start);
            if t.len() == 1 {
                assert(dce_sweep(t, 0, start) == dce_step(last, start));
                assert(dce_sweep(dce_block(sp, live_all), 0, y) == y);
            }
        } else {
            lemma_sweep_grows(s, 0, start);
            assert(y == start);
            assert(dce_block(s, live_all) == dce_block(sp, live_all));
        }
    }
}

proof fn lemma_live_from_grows(blocks: Seq<BasicBlock>, k: int)
    requires
        0 <= k,
    ensures
        dce_live_from(blocks, k).subset_of(dce_live_from(blocks, 0)),
    decreases k,
{
    if 0 < k <= blocks.len() {
        lemma_live_from_grows(blocks, k - 1);
        if k - 1 < blocks.len() {
            lemma_sweep_grows(blocks[k - 1].stmts@, 0, dce_live_from(blocks, k));
        }
    }
}

/// After DCE, the liveness sweep over the remaining statements gives the
/// same live set.
proof fn lemma_live_kept(blocks: Seq<BasicBlock>, out: Seq<BasicBlock>, k: int)
    requires
        out.len() == blocks.len(),
        forall|i: int| 0 <= i < blocks.len() ==> (#[trigger] out[i]).stmts@ == dce_block(blocks[i].stmts@, dce_live_from(blocks, 0)),
        0 <= k,
    ensures
        dce_live_from(out, k) == dce_live_from(blocks, k),
    decreases blocks.len() - k,
{
    if k < blocks.len() {
        lemma_live_kept(blocks, out, k + 1);
        lemma_live_from_grows(blocks, k);
        lemma_sweep_kept(blocks[k].stmts@, dce_live_from(blocks, k + 1), dce_live_from(blocks, 0));
        assert(out[k].stmts@ == dce_block(blocks[k].stmts@, dce_live_from(blocks, 0)));
    }
}

/// Every statement DCE keeps is one that the live set keeps.
proof fn lemma_block_kept(s: Seq<Stmt>, live: Set<Ref>, k: Set<int>)
    requires
        forall|j: int| 0 <= j < s.len() && #[trigger] k.contains(j) ==> dce_keeps(s[j], live),
    ensures
        forall|j: int| 0 <= j < select(s, k).len() ==> dce_keeps(#[trigger] select(s, k)[j], live),
    decreases s.len(),
{
    if s.len() > 0 {
        let sp = s.drop_last();
        lemma_block_kept(sp, live, k);
        let p = select(sp, k);
        assert forall|j: int| 0 <= j < select(s, k).len() implies dce_keeps(#[trigger] select(s, k)[j], live) by {
            if j < p.len() {
                assert(select(s, k)[j] == p[j]);
            } else {
                assert(k.contains(s.len() - 1));
                assert(select(s, k)[j] == s[s.len() - 1]);
            }
        }
    }
}

/// Selecting every position of a sequence gives it back.
proof fn lemma_select_all(s: Seq<Stmt>, live: Set<Ref>)
    requires
        forall|j: int| 0 <= j < s.len() ==> dce_keeps(#[trigger] s[j], live),
    ensures
        dce_block(s, live) == s,
    decreases s.len(),
{
    if s.len() > 0 {
        let sp = s.drop_last();
        lemma_select_all(sp, live);
        let k = Set::new(|j: int| 0 <= j < s.len() && dce_keeps(s[j], live));
        let kp = Set::new(|j: int| 0 <= j < sp.len() && dce_keeps(sp[j], live));
        lemma_select_ext(sp, k, kp);
        assert(dce_block(s, live) =~= s);
    }
}

/// DCE is idempotent: running it on its own output changes nothing. The
/// statements it drops contribute nothing to liveness, so the second run
/// computes the same live set and keeps everything.
pub proof fn law_dce_idempotent(func: Function, once: Function, twice: Function)
    requires
        dce_result(func, once),
        dce_result(once, twice),
    ensures
        twice.entry == once.entry,
        twice.blocks.len() == once.blocks.len(),
        forall|i: int| 0 <= i < once.blocks.len() ==> {
            &&& (#[trigger] twice.blocks[i]).id == once.blocks[i].id
            &&& twice.blocks[i].stmts@ == once.blocks[i].stmts@
        },
{
    let live = dce_live(func);
    assert forall|i: int| 0 <= i < func.blocks.len() implies (#[trigger] once.blocks@[i]).stmts@ == dce_block(func.blocks@[i].stmts@, dce_live_from(func.blocks@, 0)) by {
        assert(once.blocks[i].stmts@ == dce_block(func.blocks[i].stmts@, live));
    }
    lemma_live_kept(func.blocks@, once.blocks@, 0);
    assert(dce_live(once) == live);
    assert forall|i: int| 0 <= i < once.blocks.len() implies {
        &&& (#[trigger] twice.blocks[i]).id == once.blocks[i].id
        &&& twice.blocks[i].stmts@ == once.blocks[i].stmts@
    } by {
        let s = func.blocks[i].stmts@;
        let k = Set::new(|j: int| 0 <= j < s.len() && dce_keeps(s[j], live));
        lemma_block_kept(s, live, k);
        lemma_select_all(once.blocks[i].stmts@, live);
        assert(twice.blocks[i].stmts@ == dce_block(once.blocks[i].stmts@, live));
    }
}

} // verus!
