//! Register/memory binary operations, compare and test.

use vstd::prelude::*;

use crate::decoder::emit::{
    reads_defined_ref, def, eff, emit, emit_addr_with_size, emit_rm_load, emit_void, map_reg, mem_operand, op_bin, op_ld_reg, op_st_reg,
    reg_reg, rm_insn_len, rm_load, rm_ok, rm_reg, rm_store, rm_used, emit_rm_store, room, ssa_wf,
};
use crate::decoder::groups::{emit_rm_update, lowered, rm_update_code};
use crate::decoder::modrm;
use crate::decoder::prefixes::{PrefixSet, operand_size, spec_operand_size};
use crate::decoder::DecodeError;
use crate::ir::{Ref, AluFlags, BinOp, BinOpKind, CmpFlags, CondCode, Gpr, LoadMem, LoadReg, Op, OpSize, Select, Stmt, StoreMem, StoreReg};

verus! {

/// `kind` r/m, reg (the reg operand read first) at `cursor` when the list
/// holds `s` statements: the r/m operand is combined with the register and
/// written back.
pub open spec fn binop_rm_r_code(kind: BinOpKind, p: PrefixSet, b: Seq<u8>, cursor: int, size: OpSize, s: int) -> Result<(Seq<Stmt>, int), DecodeError> {
    let mc = cursor + 1;
    if mc >= b.len() {
        Err(DecodeError::Truncated)
    } else {
        let m = modrm::modrm_of(b[mc]);
        if !rm_ok(m, p, b, mc) {
            Err(mem_operand(m, p, b, mc)->Err_0)
        } else {
            Ok((seq![def(s, op_ld_reg(reg_reg(m, p), size))] + rm_update_code(p, m, b, mc, 0, size, kind, s, s + 1), rm_insn_len(m, b, mc)))
        }
    }
}

/// `kind` reg, r/m at `cursor` when the list holds `s` statements: the
/// register combined with the r/m operand, written to the register.
pub open spec fn binop_r_rm_code(kind: BinOpKind, p: PrefixSet, b: Seq<u8>, cursor: int, size: OpSize, s: int) -> Result<(Seq<Stmt>, int), DecodeError> {
    let mc = cursor + 1;
    if mc >= b.len() {
        Err(DecodeError::Truncated)
    } else {
        let m = modrm::modrm_of(b[mc]);
        if !rm_ok(m, p, b, mc) {
            Err(mem_operand(m, p, b, mc)->Err_0)
        } else {
            let r = rm_load(m, p, b, mc, 0, size, s + 1);
            let k = s + 1 + r.0.len();
            Ok((seq![def(s, op_ld_reg(reg_reg(m, p), size))] + r.0
                + seq![def(k, op_bin(kind, s, r.1, size)), eff(op_st_reg(reg_reg(m, p), k, size))], rm_insn_len(m, b, mc)))
        }
    }
}

/// The flags statement of a register/operand compare or test, defining
/// ref `k`: `form` 0 compares the r/m value with the register, 1 the
/// register with the r/m value, and 2 ANDs them (TEST).
pub open spec fn flags_stmt(form: u8, reg: int, rm: int, size: OpSize, k: int) -> Stmt {
    if form == 0 {
        def(k, Op::CmpFlags(CmpFlags { lhs: rm as u32, rhs: reg as u32, size }))
    } else if form == 1 {
        def(k, Op::CmpFlags(CmpFlags { lhs: reg as u32, rhs: rm as u32, size }))
    } else {
        eff(Op::AluFlags(AluFlags { op: BinOpKind::And, lhs: rm as u32, rhs: reg as u32, size }))
    }
}

/// The reg operand of the ModR/M byte after `cursor` read, then its r/m
/// operand, then the flags statement of `form`, when the list holds `s`
/// statements.
pub open spec fn reg_rm_flags_code(p: PrefixSet, b: Seq<u8>, cursor: int, size: OpSize, form: u8, s: int) -> Result<(Seq<Stmt>, int), DecodeError> {
    let mc = cursor + 1;
    if mc >= b.len() {
        Err(DecodeError::Truncated)
    } else {
        let m = modrm::modrm_of(b[mc]);
        if !rm_ok(m, p, b, mc) {
            Err(mem_operand(m, p, b, mc)->Err_0)
        } else {
            let r = rm_load(m, p, b, mc, 0, size, s + 1);
            let k = s + 1 + r.0.len();
            Ok((seq![def(s, op_ld_reg(reg_reg(m, p), size))] + r.0 + seq![flags_stmt(form, s, r.1, size, k)], rm_insn_len(m, b, mc)))
        }
    }
}

/// A compare or test of form `form` at `cursor` was lowered from `before`
/// to `after` with result `res`.
pub open spec fn reg_rm_flags_lowered(p: PrefixSet, b: Seq<u8>, cursor: usize, size: OpSize, form: u8, before: Seq<Stmt>, after: Seq<Stmt>, res: Result<usize, DecodeError>) -> bool {
    lowered(reg_rm_flags_code(p, b, cursor as int, size, form, before.len() as int), before, after, res)
}

/// Compare or test (by `form`) the reg and r/m operands of the ModR/M byte
/// after `cursor`.
#[verifier::spinoff_prover]
fn emit_reg_rm_flags(
    prefixes: &PrefixSet,
    bytes: &[u8],
    cursor: usize,
    size: OpSize,
    form: u8,
    stmts: &mut Vec<Stmt>,
) -> (res: Result<usize, DecodeError>)
    requires
        cursor < bytes.len(),
        bytes.len() <= isize::MAX,
        room(old(stmts)@),
        ssa_wf(old(stmts)@),
    ensures
        ssa_wf(final(stmts)@),
        old(stmts).len() <= final(stmts).len() <= old(stmts).len() + 0x100,
        res matches Ok(n) ==> 1 <= n <= 16,
        reg_rm_flags_lowered(*prefixes, bytes@, cursor, size, form, old(stmts)@, final(stmts)@, res),
{
    let (modrm, _after) = modrm::parse_modrm(bytes, cursor + 1)?;
    let ghost s0 = stmts@;
    let (reg_ref, rm_ref, used) = emit_reg_and_rm(prefixes, modrm, bytes, cursor + 1, size, stmts)?;
    if form == 0 {
        emit(stmts, Op::CmpFlags(CmpFlags { lhs: rm_ref, rhs: reg_ref, size }));
    } else if form == 1 {
        emit(stmts, Op::CmpFlags(CmpFlags { lhs: reg_ref, rhs: rm_ref, size }));
    } else {
        emit_void(stmts, Op::AluFlags(AluFlags {
                op: BinOpKind::And,
                lhs: rm_ref,
                rhs: reg_ref,
                size,
            }));
    }
    proof {
        let r = rm_load(modrm, *prefixes, bytes@, cursor + 1, 0, size, s0.len() + 1int);
        let k: int = s0.len() as int + 1 + r.0.len();
        assert(stmts@ =~= s0 + (seq![def(s0.len() as int, op_ld_reg(reg_reg(modrm, *prefixes), size))] + r.0
            + seq![flags_stmt(form, s0.len() as int, r.1, size, k)]));
    }
    Ok(1 + used)
}

/// Read the reg operand of the ModR/M byte `modrm` at `mc`, then its r/m
/// operand; returns both value refs and the bytes the r/m operand takes.
#[verifier::spinoff_prover]
fn emit_reg_and_rm(
    prefixes: &PrefixSet,
    modrm: modrm::ModRm,
    bytes: &[u8],
    mc: usize,
    size: OpSize,
    stmts: &mut Vec<Stmt>,
) -> (res: Result<(Ref, Ref, usize), DecodeError>)
    requires
        mc < bytes.len(),
        bytes.len() <= isize::MAX,
        room(old(stmts)@),
        ssa_wf(old(stmts)@),
    ensures
        ssa_wf(final(stmts)@),
        old(stmts).len() <= final(stmts).len() <= old(stmts).len() + 0x10,
        rm_ok(modrm, *prefixes, bytes@, mc as int) ==> {
            let r = rm_load(modrm, *prefixes, bytes@, mc as int, 0, size, old(stmts).len() + 1);
            &&& res == Ok::<(Ref, Ref, usize), DecodeError>((old(stmts).len() as u32, r.1 as u32, rm_used(modrm, bytes@, mc as int) as usize))
            &&& final(stmts)@ == old(stmts)@ + (seq![def(old(stmts).len() as int, op_ld_reg(reg_reg(modrm, *prefixes), size))] + r.0)
        },
        !rm_ok(modrm, *prefixes, bytes@, mc as int) ==> res == Err::<(Ref, Ref, usize), DecodeError>(mem_operand(modrm, *prefixes, bytes@, mc as int)->Err_0),
        res matches Ok((a, v, u)) ==> reads_defined_ref(final(stmts)@, a) && reads_defined_ref(final(stmts)@, v) && 1 <= u <= 6,
{
    let ghost s0 = stmts@;
    let reg = map_reg(modrm.reg, &prefixes.rex, true);
    let reg_ref = emit(stmts, Op::LoadReg(LoadReg { reg, size }));
    let ghost s1 = stmts@;
    let (rm_ref, _addr, used) = emit_rm_load(modrm, prefixes, bytes, mc, 0, size, stmts)?;
    proof {
        let r = rm_load(modrm, *prefixes, bytes@, mc as int, 0, size, s0.len() + 1int);
        assert(stmts@ =~= s0 + (seq![s1.last()] + r.0));
    }
    Ok((reg_ref, rm_ref, used))
}

#[verifier::spinoff_prover]
pub(crate) fn decode_binop_rm_r(
    kind: BinOpKind,
    prefixes: &PrefixSet,
    bytes: &[u8],
    cursor: usize,
    stmts: &mut Vec<Stmt>,
) -> (res: Result<usize, DecodeError>)
    requires
        cursor < bytes.len(),
        bytes.len() <= isize::MAX,
        room(old(stmts)@),
        ssa_wf(old(stmts)@),
    ensures
        ssa_wf(final(stmts)@),
        old(stmts).len() <= final(stmts).len() <= old(stmts).len() + 0x100,
        res matches Ok(n) ==> 1 <= n <= 16,
        lowered(binop_rm_r_code(kind, *prefixes, bytes@, cursor as int, spec_operand_size(*prefixes), old(stmts).len() as int), old(stmts)@, final(stmts)@, res),
{
    let size = operand_size(prefixes, true);
    decode_binop_rm_r_with_size(kind, prefixes, bytes, cursor, stmts, size)
}

#[verifier::spinoff_prover]
pub(crate) fn decode_binop_rm_r_with_size(
    kind: BinOpKind,
    prefixes: &PrefixSet,
    bytes: &[u8],
    cursor: usize,
    stmts: &mut Vec<Stmt>,
    size: OpSize,
) -> (res: Result<usize, DecodeError>)
    requires
        cursor < bytes.len(),
        bytes.len() <= isize::MAX,
        room(old(stmts)@),
        ssa_wf(old(stmts)@),
    ensures
        ssa_wf(final(stmts)@),
        old(stmts).len() <= final(stmts).len() <= old(stmts).len() + 0x100,
        res matches Ok(n) ==> 1 <= n <= 16,
        lowered(binop_rm_r_code(kind, *prefixes, bytes@, cursor as int, size, old(stmts).len() as int), old(stmts)@, final(stmts)@, res),
{
    let (modrm, _after) = modrm::parse_modrm(bytes, cursor + 1)?;
    let rhs_reg = map_reg(modrm.reg, &prefixes.rex, true);
    let ghost s0 = stmts@;
    let rhs_ref = emit(stmts, Op::LoadReg(LoadReg { reg: rhs_reg, size }));
    let ghost s1 = stmts@;
    let used = emit_rm_update(prefixes, modrm, bytes, cursor + 1, 0, size, kind, rhs_ref, stmts)?;
    proof {
        assert(stmts@ =~= s0 + (seq![s1.last()] + rm_update_code(*prefixes, modrm, bytes@, cursor + 1, 0, size, kind, s0.len() as int, s0.len() + 1int)));
    }
    Ok(1 + used)
}

#[verifier::spinoff_prover]
pub(crate) fn decode_binop_r_rm(
    kind: BinOpKind,
    prefixes: &PrefixSet,
    bytes: &[u8],
    cursor: usize,
    stmts: &mut Vec<Stmt>,
) -> (res: Result<usize, DecodeError>)
    requires
        cursor < bytes.len(),
        bytes.len() <= isize::MAX,
        room(old(stmts)@),
        ssa_wf(old(stmts)@),
    ensures
        ssa_wf(final(stmts)@),
        old(stmts).len() <= final(stmts).len() <= old(stmts).len() + 0x100,
        res matches Ok(n) ==> 1 <= n <= 16,
        lowered(binop_r_rm_code(kind, *prefixes, bytes@, cursor as int, spec_operand_size(*prefixes), old(stmts).len() as int), old(stmts)@, final(stmts)@, res),
{
    let size = operand_size(prefixes, true);
    decode_binop_r_rm_with_size(kind, prefixes, bytes, cursor, stmts, size)
}

#[verifier::spinoff_prover]
pub(crate) fn decode_binop_r_rm_with_size(
    kind: BinOpKind,
    prefixes: &PrefixSet,
    bytes: &[u8],
    cursor: usize,
    stmts: &mut Vec<Stmt>,
    size: OpSize,
) -> (res: Result<usize, DecodeError>)
    requires
        cursor < bytes.len(),
        bytes.len() <= isize::MAX,
        room(old(stmts)@),
        ssa_wf(old(stmts)@),
    ensures
        ssa_wf(final(stmts)@),
        old(stmts).len() <= final(stmts).len() <= old(stmts).len() + 0x100,
        res matches Ok(n) ==> 1 <= n <= 16,
        lowered(binop_r_rm_code(kind, *prefixes, bytes@, cursor as int, size, old(stmts).len() as int), old(stmts)@, final(stmts)@, res),
{
    let (modrm, _after) = modrm::parse_modrm(bytes, cursor + 1)?;
    let dst_reg = map_reg(modrm.reg, &prefixes.rex, true);
    let ghost s0 = stmts@;
    let dst_val = emit(stmts, Op::LoadReg(LoadReg { reg: dst_reg, size }));
    let ghost s1 = stmts@;
    let (rhs, _addr, used) = emit_rm_load(modrm, prefixes, bytes, cursor + 1, 0, size, stmts)?;
    let result = emit(stmts, Op::BinOp(BinOp {
            op: kind,
            lhs: dst_val,
            rhs,
            size,
        }));
    emit_void(stmts, Op::StoreReg(StoreReg {
            reg: dst_reg,
            value: result,
            size,
        }));
    proof {
        let r = rm_load(modrm, *prefixes, bytes@, cursor + 1, 0, size, s0.len() + 1int);
        let k: int = s0.len() as int + 1 + r.0.len();
        assert(stmts@ =~= s0 + (seq![s1.last()] + r.0
            + seq![def(k, op_bin(kind, s0.len() as int, r.1, size)), eff(op_st_reg(reg_reg(modrm, *prefixes), k, size))]));
    }
    Ok(1 + used)
}

/// XADD (0F C0/C1, `cursor` after the 0F) when the list holds `s`
/// statements: the register and the r/m operand read, the old r/m value
/// written to the register and the sum to the r/m operand. Refused with a
/// REP, LOCK or segment prefix.
pub open spec fn xadd_code(p: PrefixSet, opcode: u8, b: Seq<u8>, cursor: int, s: int) -> Result<(Seq<Stmt>, int), DecodeError> {
    let size = if opcode == 0xC0 { OpSize::I8 } else { spec_operand_size(p) };
    let mc = cursor + 1;
    if p.rep is Some || p.lock || p.segment is Some {
        Err(DecodeError::UnsupportedOpcode(opcode))
    } else if mc >= b.len() {
        Err(DecodeError::Truncated)
    } else {
        let m = modrm::modrm_of(b[mc]);
        if !rm_ok(m, p, b, mc) {
            Err(mem_operand(m, p, b, mc)->Err_0)
        } else {
            let r = rm_load(m, p, b, mc, 0, size, s + 1);
            let k = s + 1 + r.0.len();
            Ok((seq![def(s, op_ld_reg(reg_reg(m, p), size))] + r.0 + seq![
                def(k, op_bin(BinOpKind::Add, r.1, s, size)),
                eff(op_st_reg(reg_reg(m, p), r.1, size)),
                rm_store(m, p, size, r.2, k),
            ], rm_insn_len(m, b, mc)))
        }
    }
}

/// A selection on `cc` between refs `t` and `f`, defining ref `k`.
pub open spec fn select_stmt(cc: CondCode, t: int, f: int, size: OpSize, k: int) -> Stmt {
    def(k, Op::Select(Select { cc, true_value: t as u32, false_value: f as u32, size }))
}

/// CMPXCHG r/m, reg (0F B0/B1, `cursor` after the 0F; register operand
/// only) when the list holds `s` statements: the accumulator compared with
/// the destination; on equality the destination takes the source, else the
/// accumulator takes the destination (AX alone at 16 bits, else all of RAX).
/// The accumulator is written before the destination.
pub open spec fn exchange_compare_code(p: PrefixSet, opcode: u8, b: Seq<u8>, cursor: int, s: int) -> Result<(Seq<Stmt>, int), DecodeError> {
    let size = if opcode == 0xB0 { OpSize::I8 } else { spec_operand_size(p) };
    let mc = cursor + 1;
    if mc >= b.len() {
        Err(DecodeError::Truncated)
    } else {
        let m = modrm::modrm_of(b[mc]);
        if m.mod_ != 3 {
            Err(DecodeError::UnsupportedOpcode(opcode))
        } else {
            let narrow = size == OpSize::I16;
            let t: int = if narrow { s + 1 } else { s + 2 };
            let keep: int = if narrow { s } else { s + 1 };
            let rax_size = if narrow { OpSize::I16 } else { OpSize::I64 };
            let acc = if narrow {
                seq![def(s, op_ld_reg(Gpr::Rax, size))]
            } else {
                seq![def(s, op_ld_reg(Gpr::Rax, size)), def(s + 1, op_ld_reg(Gpr::Rax, OpSize::I64))]
            };
            Ok((acc + seq![
                def(t, op_ld_reg(reg_reg(m, p), size)),
                def(t + 1, op_ld_reg(rm_reg(m, p), size)),
                def(t + 2, Op::CmpFlags(CmpFlags { lhs: s as u32, rhs: (t + 1) as u32, size })),
                select_stmt(CondCode::Eq, t, t + 1, size, t + 3),
                select_stmt(CondCode::Eq, keep, t + 1, rax_size, t + 4),
                eff(op_st_reg(Gpr::Rax, t + 4, rax_size)),
                eff(op_st_reg(rm_reg(m, p), t + 3, size)),
            ], 2))
        }
    }
}

/// CMPXCHG at `cursor` was lowered from `before` to `after` with `res`.
pub open spec fn exchange_compare_lowered(p: PrefixSet, opcode: u8, b: Seq<u8>, cursor: usize, before: Seq<Stmt>, after: Seq<Stmt>, res: Result<usize, DecodeError>) -> bool {
    lowered(exchange_compare_code(p, opcode, b, cursor as int, before.len() as int), before, after, res)
}

#[verifier::spinoff_prover]
#[verifier::rlimit(40)]
pub(crate) fn decode_xadd(
    prefixes: &PrefixSet,
    opcode: u8,
    bytes: &[u8],
    cursor: usize,
    stmts: &mut Vec<Stmt>,
) -> (res: Result<usize, DecodeError>)
    requires
        cursor < bytes.len(),
        bytes.len() <= isize::MAX,
        room(old(stmts)@),
        ssa_wf(old(stmts)@),
    ensures
        ssa_wf(final(stmts)@),
        old(stmts).len() <= final(stmts).len() <= old(stmts).len() + 0x100,
        res matches Ok(n) ==> 1 <= n <= 16,
        lowered(xadd_code(*prefixes, opcode, bytes@, cursor as int, old(stmts).len() as int), old(stmts)@, final(stmts)@, res),
{
    if prefixes.rep.is_some() || prefixes.lock || prefixes.segment.is_some() {
        return Err(DecodeError::UnsupportedOpcode(opcode));
    }

    let size = if opcode == 0xC0 {
        OpSize::I8
    } else {
        operand_size(prefixes, true)
    };
    let (modrm, _after) = modrm::parse_modrm(bytes, cursor + 1)?;
    let src_reg = map_reg(modrm.reg, &prefixes.rex, true);
    let ghost s0 = stmts@;
    let src = emit(stmts, Op::LoadReg(LoadReg { reg: src_reg, size }));
    let (dst, addr, used) = emit_rm_load(modrm, prefixes, bytes, cursor + 1, 0, size, stmts)?;
    let result = emit(stmts, Op::BinOp(BinOp {
            op: BinOpKind::Add,
            lhs: dst,
            rhs: src,
            size,
        }));
    emit_void(stmts, Op::StoreReg(StoreReg {
            reg: src_reg,
            value: dst,
            size,
        }));
    emit_rm_store(modrm, prefixes, size, addr, result, stmts);
    proof {
        let r = rm_load(modrm, *prefixes, bytes@, cursor + 1, 0, size, s0.len() + 1int);
        let k: int = s0.len() as int + 1 + r.0.len();
        assert(stmts@ =~= s0 + (seq![def(s0.len() as int, op_ld_reg(reg_reg(modrm, *prefixes), size))] + r.0 + seq![
            def(k, op_bin(BinOpKind::Add, r.1, s0.len() as int, size)),
            eff(op_st_reg(reg_reg(modrm, *prefixes), r.1, size)),
            rm_store(modrm, *prefixes, size, r.2, k),
        ]));
    }
    Ok(1 + used)
}

/// CMPXCHG r/m8, r8 (0F B0) and r/m, r (0F B1), register-direct (mod==3) only.
///
/// Semantics:
///   if RAX == dst: dst = src (ZF=1) else RAX = dst (ZF=0)
/// On success the accumulator is NOT written; failure writes the accumulator:
/// r/m16 writes AX only, r/m32/64 writes the full RAX (I32 zero-extends).
/// The accumulator writeback is emitted FIRST, then the destination, so that
/// when the r/m operand aliases RAX (e.g. `cmpxchg rax, rcx`) the compare
/// always succeeds and the dst write wins (SDM accumulator-then-DEST order).
///
/// Memory and LOCK forms (and CMPXCHG8B/16B) are deferred.
#[verifier::spinoff_prover]
pub(crate) fn decode_cmpxchg(
    prefixes: &PrefixSet,
    opcode: u8,
    bytes: &[u8],
    cursor: usize,
    stmts: &mut Vec<Stmt>,
) -> (res: Result<usize, DecodeError>)
    requires
        cursor < bytes.len(),
        bytes.len() <= isize::MAX,
        room(old(stmts)@),
        ssa_wf(old(stmts)@),
    ensures
        ssa_wf(final(stmts)@),
        old(stmts).len() <= final(stmts).len() <= old(stmts).len() + 0x100,
        res matches Ok(n) ==> 1 <= n <= 16,
        exchange_compare_lowered(*prefixes, opcode, bytes@, cursor, old(stmts)@, final(stmts)@, res),
{
    emit_exchange_compare(prefixes, opcode, bytes, cursor, stmts)
}

/// Compare-and-exchange of a register operand with the accumulator.
#[verifier::spinoff_prover]
#[verifier::rlimit(40)]
fn emit_exchange_compare(
    prefixes: &PrefixSet,
    opcode: u8,
    bytes: &[u8],
    cursor: usize,
    stmts: &mut Vec<Stmt>,
) -> (res: Result<usize, DecodeError>)
    requires
        cursor < bytes.len(),
        bytes.len() <= isize::MAX,
        room(old(stmts)@),
        ssa_wf(old(stmts)@),
    ensures
        ssa_wf(final(stmts)@),
        old(stmts).len() <= final(stmts).len() <= old(stmts).len() + 0x100,
        res matches Ok(n) ==> 1 <= n <= 16,
        exchange_compare_lowered(*prefixes, opcode, bytes@, cursor, old(stmts)@, final(stmts)@, res),
{
    let size = if opcode == 0xB0 {
        OpSize::I8
    } else {
        operand_size(prefixes, true)
    };
    let (modrm, _after) = modrm::parse_modrm(bytes, cursor + 1)?;
    if modrm.mod_ != 3 {
        // Register-direct only; memory/LOCK forms are deferred.
        return Err(DecodeError::UnsupportedOpcode(opcode));
    }

    let src_reg = map_reg(modrm.reg, &prefixes.rex, true);
    let dst_reg = map_reg(modrm.rm, &prefixes.rex, false);

    let ghost s0 = stmts@;
    // ref_acc = RAX at the operand size (the comparison operand).
    let acc = emit(stmts, Op::LoadReg(LoadReg {
            reg: Gpr::Rax,
            size,
        }));
    // For I32/I64, capture the full RAX so the failure writeback preserves the
    // upper bits on success and zero-extends on a 32-bit failure.
    let rax_full = if size == OpSize::I16 {
        None
    } else {
        let r = emit(stmts, Op::LoadReg(LoadReg {
                reg: Gpr::Rax,
                size: OpSize::I64,
            }));
        Some(r)
    };

    // ref_src = explicit register operand (ModRM.reg).
    let src = emit(stmts, Op::LoadReg(LoadReg { reg: src_reg, size }));
    // ref_dst = register-direct destination (ModRM.rm).
    let dst = emit(stmts, Op::LoadReg(LoadReg { reg: dst_reg, size }));

    // ZF = (acc == dst). CmpFlags carries a result ref; the following
    // Selects read NZCV by cc.
    let eq_flags = emit(stmts, Op::CmpFlags(CmpFlags {
            lhs: acc,
            rhs: dst,
            size,
        }));

    // equal -> dst = src ; else dst unchanged.
    let new_dst = emit(stmts, Op::Select(Select {
            cc: CondCode::Eq,
            true_value: src,
            false_value: dst,
            size,
        }));
    // Accumulator writeback value: success keeps the accumulator, failure
    // captures dst. I16 writes AX only; I32/I64 select into the full RAX.
    let (rax_keep, rax_size) = if size == OpSize::I16 {
        (acc, OpSize::I16)
    } else {
        (rax_full.expect("rax_full loaded for non-I16"), OpSize::I64)
    };
    let new_rax = emit(stmts, Op::Select(Select {
            cc: CondCode::Eq,
            true_value: rax_keep,
            false_value: dst,
            size: rax_size,
        }));

    // Accumulator writeback FIRST, then DEST (matters when rm aliases RAX).
    emit_void(stmts, Op::StoreReg(StoreReg {
            reg: Gpr::Rax,
            value: new_rax,
            size: rax_size,
        }));
    emit_void(stmts, Op::StoreReg(StoreReg {
            reg: dst_reg,
            value: new_dst,
            size,
        }));
    proof {
        let sp: int = s0.len() as int;
        let narrow = size == OpSize::I16;
        let t: int = if narrow { sp + 1 } else { sp + 2 };
        let keep: int = if narrow { sp } else { sp + 1 };
        let acc_code = if narrow {
            seq![def(sp, op_ld_reg(Gpr::Rax, size))]
        } else {
            seq![def(sp, op_ld_reg(Gpr::Rax, size)), def(sp + 1, op_ld_reg(Gpr::Rax, OpSize::I64))]
        };
        assert(stmts@ =~= s0 + (acc_code + seq![
            def(t, op_ld_reg(reg_reg(modrm, *prefixes), size)),
            def(t + 1, op_ld_reg(rm_reg(modrm, *prefixes), size)),
            def(t + 2, Op::CmpFlags(CmpFlags { lhs: sp as u32, rhs: (t + 1) as u32, size })),
            select_stmt(CondCode::Eq, t, t + 1, size, t + 3),
            select_stmt(CondCode::Eq, keep, t + 1, rax_size, t + 4),
            eff(op_st_reg(Gpr::Rax, t + 4, rax_size)),
            eff(op_st_reg(rm_reg(modrm, *prefixes), t + 3, size)),
        ]));
    }
    Ok(2)
}

#[verifier::spinoff_prover]
pub(crate) fn decode_cmp_rm_r(
    prefixes: &PrefixSet,
    bytes: &[u8],
    cursor: usize,
    stmts: &mut Vec<Stmt>,
) -> (res: Result<usize, DecodeError>)
    requires
        cursor < bytes.len(),
        bytes.len() <= isize::MAX,
        room(old(stmts)@),
        ssa_wf(old(stmts)@),
    ensures
        ssa_wf(final(stmts)@),
        old(stmts).len() <= final(stmts).len() <= old(stmts).len() + 0x100,
        res matches Ok(n) ==> 1 <= n <= 16,
        reg_rm_flags_lowered(*prefixes, bytes@, cursor, spec_operand_size(*prefixes), 0, old(stmts)@, final(stmts)@, res),
{
    let size = operand_size(prefixes, true);
    decode_cmp_rm_r_with_size(prefixes, bytes, cursor, stmts, size)
}

#[verifier::spinoff_prover]
pub(crate) fn decode_cmp_rm_r_with_size(
    prefixes: &PrefixSet,
    bytes: &[u8],
    cursor: usize,
    stmts: &mut Vec<Stmt>,
    size: OpSize,
) -> (res: Result<usize, DecodeError>)
    requires
        cursor < bytes.len(),
        bytes.len() <= isize::MAX,
        room(old(stmts)@),
        ssa_wf(old(stmts)@),
    ensures
        ssa_wf(final(stmts)@),
        old(stmts).len() <= final(stmts).len() <= old(stmts).len() + 0x100,
        res matches Ok(n) ==> 1 <= n <= 16,
        reg_rm_flags_lowered(*prefixes, bytes@, cursor, size, 0, old(stmts)@, final(stmts)@, res),
{
    emit_reg_rm_flags(prefixes, bytes, cursor, size, 0, stmts)
}

#[verifier::spinoff_prover]
pub(crate) fn decode_cmp_r_rm_with_size(
    prefixes: &PrefixSet,
    bytes: &[u8],
    cursor: usize,
    stmts: &mut Vec<Stmt>,
    size: OpSize,
) -> (res: Result<usize, DecodeError>)
    requires
        cursor < bytes.len(),
        bytes.len() <= isize::MAX,
        room(old(stmts)@),
        ssa_wf(old(stmts)@),
    ensures
        ssa_wf(final(stmts)@),
        old(stmts).len() <= final(stmts).len() <= old(stmts).len() + 0x100,
        res matches Ok(n) ==> 1 <= n <= 16,
        reg_rm_flags_lowered(*prefixes, bytes@, cursor, size, 1, old(stmts)@, final(stmts)@, res),
{
    emit_reg_rm_flags(prefixes, bytes, cursor, size, 1, stmts)
}

#[verifier::spinoff_prover]
pub(crate) fn decode_test_rm_r(
    prefixes: &PrefixSet,
    bytes: &[u8],
    cursor: usize,
    stmts: &mut Vec<Stmt>,
) -> (res: Result<usize, DecodeError>)
    requires
        cursor < bytes.len(),
        bytes.len() <= isize::MAX,
        room(old(stmts)@),
        ssa_wf(old(stmts)@),
    ensures
        ssa_wf(final(stmts)@),
        old(stmts).len() <= final(stmts).len() <= old(stmts).len() + 0x100,
        res matches Ok(n) ==> 1 <= n <= 16,
        reg_rm_flags_lowered(*prefixes, bytes@, cursor, spec_operand_size(*prefixes), 2, old(stmts)@, final(stmts)@, res),
{
    let size = operand_size(prefixes, true);
    decode_test_rm_r_with_size(prefixes, bytes, cursor, stmts, size)
}

#[verifier::spinoff_prover]
pub(crate) fn decode_test_rm_r_with_size(
    prefixes: &PrefixSet,
    bytes: &[u8],
    cursor: usize,
    stmts: &mut Vec<Stmt>,
    size: OpSize,
) -> (res: Result<usize, DecodeError>)
    requires
        cursor < bytes.len(),
        bytes.len() <= isize::MAX,
        room(old(stmts)@),
        ssa_wf(old(stmts)@),
    ensures
        ssa_wf(final(stmts)@),
        old(stmts).len() <= final(stmts).len() <= old(stmts).len() + 0x100,
        res matches Ok(n) ==> 1 <= n <= 16,
        reg_rm_flags_lowered(*prefixes, bytes@, cursor, size, 2, old(stmts)@, final(stmts)@, res),
{
    emit_reg_rm_flags(prefixes, bytes, cursor, size, 2, stmts)
}

/// An r/m-register or register-r/m ALU instruction combines the register
/// operand (read first, as ref `s`) with the r/m operand by `kind`.
pub proof fn lemma_alu_code_combines(kind: BinOpKind, rm_first: bool, p: PrefixSet, b: Seq<u8>, cursor: int, size: OpSize, s: int) -> (i: int)
    requires
        (if rm_first { binop_rm_r_code(kind, p, b, cursor, size, s) } else { binop_r_rm_code(kind, p, b, cursor, size, s) }) is Ok,
    ensures
        0 < i < (if rm_first { binop_rm_r_code(kind, p, b, cursor, size, s) } else { binop_r_rm_code(kind, p, b, cursor, size, s) })->Ok_0.0.len(),
        (if rm_first { binop_rm_r_code(kind, p, b, cursor, size, s) } else { binop_r_rm_code(kind, p, b, cursor, size, s) })->Ok_0.0[i].op matches Op::BinOp(x)
            && x.op == kind && x.size == size && (x.lhs == s as u32 || x.rhs == s as u32),
{
    let mc = cursor + 1;
    let m = modrm::modrm_of(b[mc]);
    let r = rm_load(m, p, b, mc, 0, size, s + 1);
    let i: int = 1 + r.0.len() as int;
    let all = (if rm_first { binop_rm_r_code(kind, p, b, cursor, size, s) } else { binop_r_rm_code(kind, p, b, cursor, size, s) })->Ok_0.0;
    if rm_first {
        let code = binop_rm_r_code(kind, p, b, cursor, size, s)->Ok_0.0;
        assert(code[i] == def(s + 1 + r.0.len(), op_bin(kind, r.1, s, size)));
        assert(all == code);
    } else {
        let code = binop_r_rm_code(kind, p, b, cursor, size, s)->Ok_0.0;
        assert(code[i] == def(s + 1 + r.0.len(), op_bin(kind, s, r.1, size)));
        assert(all == code);
    }
    assert(0 < i < all.len());
    assert(all[i].op matches Op::BinOp(x) && x.op == kind && x.size == size && (x.lhs == s as u32 || x.rhs == s as u32));
    i
}

} // verus!
