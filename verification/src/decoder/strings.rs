//! String instructions.

use vstd::prelude::*;

use crate::decoder::emit::{def, eff, emit, emit_void, op_bin, op_const, op_ld_mem, op_ld_reg, op_st_mem, op_st_reg, room, ssa_wf};
use crate::decoder::groups::lowered;
use crate::decoder::prefixes::{PrefixSet, operand_size, spec_operand_size};
use crate::decoder::DecodeError;
use crate::ir::{BinOp, BinOpKind, CmpFlags, Constant, Gpr, LoadMem, LoadReg, Op, OpSize, Stmt, StoreMem, StoreReg};

verus! {

/// The element size of a string opcode: a byte for the even opcodes, else
/// the operand size.
pub open spec fn spec_string_op_size(p: PrefixSet, opcode: u8) -> OpSize {
    if opcode == 0xA4 || opcode == 0xA6 || opcode == 0xAA || opcode == 0xAC || opcode == 0xAE {
        OpSize::I8
    } else {
        spec_operand_size(p)
    }
}

/// The bytes an element of `size` takes.
pub open spec fn spec_string_step(size: OpSize) -> u64 {
    match size {
        OpSize::I8 => 1,
        OpSize::I16 => 2,
        OpSize::I32 => 4,
        OpSize::I64 => 8,
    }
}

/// String instructions take no address-size, LOCK, segment or REP prefix.
pub open spec fn string_prefixes_ok(p: PrefixSet) -> bool {
    !p.addr_override && !p.lock && p.segment is None && p.rep is None
}

/// Advancing the 64-bit pointer in ref `ptr` by the step in ref `step` and
/// writing it to `reg`, the sum defining ref `k`.
pub open spec fn advance(reg: Gpr, ptr: int, step: int, k: int) -> Seq<Stmt> {
    seq![def(k, op_bin(BinOpKind::Add, ptr, step, OpSize::I64)), eff(op_st_reg(reg, k, OpSize::I64))]
}

/// LODS when the list holds `s` statements: the accumulator loaded from
/// [RSI], RSI advanced by the element size.
pub open spec fn lods_code(p: PrefixSet, opcode: u8, s: int) -> Seq<Stmt> {
    let size = spec_string_op_size(p, opcode);
    seq![
        def(s, op_ld_reg(Gpr::Rsi, OpSize::I64)),
        def(s + 1, op_ld_mem(s, size)),
        eff(op_st_reg(Gpr::Rax, s + 1, size)),
        def(s + 3, op_const(spec_string_step(size), OpSize::I64)),
    ] + advance(Gpr::Rsi, s, s + 3, s + 4)
}

/// STOS when the list holds `s` statements: the accumulator stored at
/// [RDI], RDI advanced.
pub open spec fn stos_code(p: PrefixSet, opcode: u8, s: int) -> Seq<Stmt> {
    let size = spec_string_op_size(p, opcode);
    seq![
        def(s, op_ld_reg(Gpr::Rdi, OpSize::I64)),
        def(s + 1, op_ld_reg(Gpr::Rax, size)),
        eff(op_st_mem(s, s + 1, size)),
        def(s + 3, op_const(spec_string_step(size), OpSize::I64)),
    ] + advance(Gpr::Rdi, s, s + 3, s + 4)
}

/// SCAS when the list holds `s` statements: flags from comparing the
/// accumulator with [RDI], RDI advanced.
pub open spec fn scas_code(p: PrefixSet, opcode: u8, s: int) -> Seq<Stmt> {
    let size = spec_string_op_size(p, opcode);
    seq![
        def(s, op_ld_reg(Gpr::Rdi, OpSize::I64)),
        def(s + 1, op_ld_reg(Gpr::Rax, size)),
        def(s + 2, op_ld_mem(s, size)),
        def(s + 3, Op::CmpFlags(CmpFlags { lhs: (s + 1) as u32, rhs: (s + 2) as u32, size })),
        def(s + 4, op_const(spec_string_step(size), OpSize::I64)),
    ] + advance(Gpr::Rdi, s, s + 4, s + 5)
}

/// CMPS when the list holds `s` statements: flags from comparing [RSI]
/// with [RDI], both advanced.
pub open spec fn string_compare_code(p: PrefixSet, opcode: u8, s: int) -> Seq<Stmt> {
    let size = spec_string_op_size(p, opcode);
    seq![
        def(s, op_ld_reg(Gpr::Rsi, OpSize::I64)),
        def(s + 1, op_ld_reg(Gpr::Rdi, OpSize::I64)),
        def(s + 2, op_ld_mem(s, size)),
        def(s + 3, op_ld_mem(s + 1, size)),
        def(s + 4, Op::CmpFlags(CmpFlags { lhs: (s + 2) as u32, rhs: (s + 3) as u32, size })),
        def(s + 5, op_const(spec_string_step(size), OpSize::I64)),
    ] + advance(Gpr::Rsi, s, s + 5, s + 6) + advance(Gpr::Rdi, s + 1, s + 5, s + 8)
}

/// MOVS when the list holds `s` statements: [RSI] copied to [RDI], both
/// advanced.
pub open spec fn movs_code(p: PrefixSet, opcode: u8, s: int) -> Seq<Stmt> {
    let size = spec_string_op_size(p, opcode);
    seq![
        def(s, op_ld_reg(Gpr::Rsi, OpSize::I64)),
        def(s + 1, op_ld_reg(Gpr::Rdi, OpSize::I64)),
        def(s + 2, op_ld_mem(s, size)),
        eff(op_st_mem(s + 1, s + 2, size)),
        def(s + 4, op_const(spec_string_step(size), OpSize::I64)),
    ] + advance(Gpr::Rsi, s, s + 4, s + 5) + advance(Gpr::Rdi, s + 1, s + 4, s + 7)
}

/// A string instruction was lowered from `before` to `after` with `res`:
/// refused unless `string_prefixes_ok`, else one byte long with `code`
/// appended.
pub open spec fn string_lowered(p: PrefixSet, opcode: u8, code: Seq<Stmt>, before: Seq<Stmt>, after: Seq<Stmt>, res: Result<usize, DecodeError>) -> bool {
    if string_prefixes_ok(p) {
        res == Ok::<usize, DecodeError>(1) && after == before + code
    } else {
        res == Err::<usize, DecodeError>(DecodeError::UnsupportedOpcode(opcode))
    }
}

/// CMPS was lowered from `before` to `after` with `res`.
pub open spec fn string_compare_lowered(p: PrefixSet, opcode: u8, before: Seq<Stmt>, after: Seq<Stmt>, res: Result<usize, DecodeError>) -> bool {
    string_lowered(p, opcode, string_compare_code(p, opcode, before.len() as int), before, after, res)
}

pub(crate) fn string_op_size(prefixes: &PrefixSet, opcode: u8) -> (r: OpSize)
    ensures
        r == spec_string_op_size(*prefixes, opcode),
{
    if matches!(opcode, 0xA4 | 0xA6 | 0xAA | 0xAC | 0xAE) {
        OpSize::I8
    } else {
        operand_size(prefixes, true)
    }
}

pub(crate) fn string_step(size: OpSize) -> (r: u64)
    ensures
        r == spec_string_step(size),
{
    match size {
        OpSize::I8 => 1,
        OpSize::I16 => 2,
        OpSize::I32 => 4,
        OpSize::I64 => 8,
    }
}

#[verifier::spinoff_prover]
pub(crate) fn decode_lods(
    prefixes: &PrefixSet,
    opcode: u8,
    stmts: &mut Vec<Stmt>,
) -> (res: Result<usize, DecodeError>)
    requires
        room(old(stmts)@),
        ssa_wf(old(stmts)@),
    ensures
        ssa_wf(final(stmts)@),
        old(stmts).len() <= final(stmts).len() <= old(stmts).len() + 0x100,
        res matches Ok(n) ==> 1 <= n <= 16,
        string_lowered(*prefixes, opcode, lods_code(*prefixes, opcode, old(stmts).len() as int), old(stmts)@, final(stmts)@, res),
{
    if prefixes.addr_override
        || prefixes.lock
        || prefixes.segment.is_some()
        || prefixes.rep.is_some()
    {
        return Err(DecodeError::UnsupportedOpcode(opcode));
    }

    let ghost s0 = stmts@;
    let size = string_op_size(prefixes, opcode);
    let rsi = emit(stmts, Op::LoadReg(LoadReg {
            reg: Gpr::Rsi,
            size: OpSize::I64,
        }));
    let value = emit(stmts, Op::LoadMem(LoadMem { addr: rsi, size }));
    emit_void(stmts, Op::StoreReg(StoreReg {
            reg: Gpr::Rax,
            value,
            size,
        }));
    let one = emit(stmts, Op::Constant(Constant {
            value: string_step(size),
            size: OpSize::I64,
        }));
    let next = emit(stmts, Op::BinOp(BinOp {
            op: BinOpKind::Add,
            lhs: rsi,
            rhs: one,
            size: OpSize::I64,
        }));
    emit_void(stmts, Op::StoreReg(StoreReg {
            reg: Gpr::Rsi,
            value: next,
            size: OpSize::I64,
        }));
    assert(stmts@ =~= s0 + lods_code(*prefixes, opcode, s0.len() as int));
    Ok(1)
}

#[verifier::spinoff_prover]
pub(crate) fn decode_stos(
    prefixes: &PrefixSet,
    opcode: u8,
    stmts: &mut Vec<Stmt>,
) -> (res: Result<usize, DecodeError>)
    requires
        room(old(stmts)@),
        ssa_wf(old(stmts)@),
    ensures
        ssa_wf(final(stmts)@),
        old(stmts).len() <= final(stmts).len() <= old(stmts).len() + 0x100,
        res matches Ok(n) ==> 1 <= n <= 16,
        string_lowered(*prefixes, opcode, stos_code(*prefixes, opcode, old(stmts).len() as int), old(stmts)@, final(stmts)@, res),
{
    if prefixes.addr_override
        || prefixes.lock
        || prefixes.segment.is_some()
        || prefixes.rep.is_some()
    {
        return Err(DecodeError::UnsupportedOpcode(opcode));
    }

    let ghost s0 = stmts@;
    let size = string_op_size(prefixes, opcode);
    let rdi = emit(stmts, Op::LoadReg(LoadReg {
            reg: Gpr::Rdi,
            size: OpSize::I64,
        }));
    let value = emit(stmts, Op::LoadReg(LoadReg {
            reg: Gpr::Rax,
            size,
        }));
    emit_void(stmts, Op::StoreMem(StoreMem {
            addr: rdi,
            value,
            size,
        }));
    let one = emit(stmts, Op::Constant(Constant {
            value: string_step(size),
            size: OpSize::I64,
        }));
    let next = emit(stmts, Op::BinOp(BinOp {
            op: BinOpKind::Add,
            lhs: rdi,
            rhs: one,
            size: OpSize::I64,
        }));
    emit_void(stmts, Op::StoreReg(StoreReg {
            reg: Gpr::Rdi,
            value: next,
            size: OpSize::I64,
        }));
    assert(stmts@ =~= s0 + stos_code(*prefixes, opcode, s0.len() as int));
    Ok(1)
}

#[verifier::spinoff_prover]
pub(crate) fn decode_scas(
    prefixes: &PrefixSet,
    opcode: u8,
    stmts: &mut Vec<Stmt>,
) -> (res: Result<usize, DecodeError>)
    requires
        room(old(stmts)@),
        ssa_wf(old(stmts)@),
    ensures
        ssa_wf(final(stmts)@),
        old(stmts).len() <= final(stmts).len() <= old(stmts).len() + 0x100,
        res matches Ok(n) ==> 1 <= n <= 16,
        string_lowered(*prefixes, opcode, scas_code(*prefixes, opcode, old(stmts).len() as int), old(stmts)@, final(stmts)@, res),
{
    if prefixes.addr_override
        || prefixes.lock
        || prefixes.segment.is_some()
        || prefixes.rep.is_some()
    {
        return Err(DecodeError::UnsupportedOpcode(opcode));
    }

    let ghost s0 = stmts@;
    let size = string_op_size(prefixes, opcode);
    let rdi = emit(stmts, Op::LoadReg(LoadReg {
            reg: Gpr::Rdi,
            size: OpSize::I64,
        }));
    let lhs = emit(stmts, Op::LoadReg(LoadReg {
            reg: Gpr::Rax,
            size,
        }));
    let rhs = emit(stmts, Op::LoadMem(LoadMem { addr: rdi, size }));
    let flags = emit(stmts, Op::CmpFlags(CmpFlags { lhs, rhs, size }));
    let one = emit(stmts, Op::Constant(Constant {
            value: string_step(size),
            size: OpSize::I64,
        }));
    let next = emit(stmts, Op::BinOp(BinOp {
            op: BinOpKind::Add,
            lhs: rdi,
            rhs: one,
            size: OpSize::I64,
        }));
    emit_void(stmts, Op::StoreReg(StoreReg {
            reg: Gpr::Rdi,
            value: next,
            size: OpSize::I64,
        }));
    assert(stmts@ =~= s0 + scas_code(*prefixes, opcode, s0.len() as int));
    Ok(1)
}

#[verifier::spinoff_prover]
pub(crate) fn decode_cmps(
    prefixes: &PrefixSet,
    opcode: u8,
    stmts: &mut Vec<Stmt>,
) -> (res: Result<usize, DecodeError>)
    requires
        room(old(stmts)@),
        ssa_wf(old(stmts)@),
    ensures
        ssa_wf(final(stmts)@),
        old(stmts).len() <= final(stmts).len() <= old(stmts).len() + 0x100,
        res matches Ok(n) ==> 1 <= n <= 16,
        string_compare_lowered(*prefixes, opcode, old(stmts)@, final(stmts)@, res),
{
    emit_string_compare(prefixes, opcode, stmts)
}

/// Compare [RSI] with [RDI] and advance both.
#[verifier::spinoff_prover]
fn emit_string_compare(
    prefixes: &PrefixSet,
    opcode: u8,
    stmts: &mut Vec<Stmt>,
) -> (res: Result<usize, DecodeError>)
    requires
        room(old(stmts)@),
        ssa_wf(old(stmts)@),
    ensures
        ssa_wf(final(stmts)@),
        old(stmts).len() <= final(stmts).len() <= old(stmts).len() + 0x100,
        res matches Ok(n) ==> 1 <= n <= 16,
        string_lowered(*prefixes, opcode, string_compare_code(*prefixes, opcode, old(stmts).len() as int), old(stmts)@, final(stmts)@, res),
{
    if prefixes.addr_override
        || prefixes.lock
        || prefixes.segment.is_some()
        || prefixes.rep.is_some()
    {
        return Err(DecodeError::UnsupportedOpcode(opcode));
    }

    let ghost s0 = stmts@;
    let size = string_op_size(prefixes, opcode);
    let rsi = emit(stmts, Op::LoadReg(LoadReg {
            reg: Gpr::Rsi,
            size: OpSize::I64,
        }));
    let rdi = emit(stmts, Op::LoadReg(LoadReg {
            reg: Gpr::Rdi,
            size: OpSize::I64,
        }));
    let lhs = emit(stmts, Op::LoadMem(LoadMem { addr: rsi, size }));
    let rhs = emit(stmts, Op::LoadMem(LoadMem { addr: rdi, size }));
    let flags = emit(stmts, Op::CmpFlags(CmpFlags { lhs, rhs, size }));
    let one = emit(stmts, Op::Constant(Constant {
            value: string_step(size),
            size: OpSize::I64,
        }));
    let next_rsi = emit(stmts, Op::BinOp(BinOp {
            op: BinOpKind::Add,
            lhs: rsi,
            rhs: one,
            size: OpSize::I64,
        }));
    emit_void(stmts, Op::StoreReg(StoreReg {
            reg: Gpr::Rsi,
            value: next_rsi,
            size: OpSize::I64,
        }));
    let next_rdi = emit(stmts, Op::BinOp(BinOp {
            op: BinOpKind::Add,
            lhs: rdi,
            rhs: one,
            size: OpSize::I64,
        }));
    emit_void(stmts, Op::StoreReg(StoreReg {
            reg: Gpr::Rdi,
            value: next_rdi,
            size: OpSize::I64,
        }));
    assert(stmts@ =~= s0 + string_compare_code(*prefixes, opcode, s0.len() as int));
    Ok(1)
}

#[verifier::spinoff_prover]
pub(crate) fn decode_movs(
    prefixes: &PrefixSet,
    opcode: u8,
    stmts: &mut Vec<Stmt>,
) -> (res: Result<usize, DecodeError>)
    requires
        room(old(stmts)@),
        ssa_wf(old(stmts)@),
    ensures
        ssa_wf(final(stmts)@),
        old(stmts).len() <= final(stmts).len() <= old(stmts).len() + 0x100,
        res matches Ok(n) ==> 1 <= n <= 16,
        string_lowered(*prefixes, opcode, movs_code(*prefixes, opcode, old(stmts).len() as int), old(stmts)@, final(stmts)@, res),
{
    if prefixes.addr_override
        || prefixes.lock
        || prefixes.segment.is_some()
        || prefixes.rep.is_some()
    {
        return Err(DecodeError::UnsupportedOpcode(opcode));
    }

    let ghost s0 = stmts@;
    let size = string_op_size(prefixes, opcode);
    let rsi = emit(stmts, Op::LoadReg(LoadReg {
            reg: Gpr::Rsi,
            size: OpSize::I64,
        }));
    let rdi = emit(stmts, Op::LoadReg(LoadReg {
            reg: Gpr::Rdi,
            size: OpSize::I64,
        }));
    let value = emit(stmts, Op::LoadMem(LoadMem { addr: rsi, size }));
    emit_void(stmts, Op::StoreMem(StoreMem {
            addr: rdi,
            value,
            size,
        }));
    let one = emit(stmts, Op::Constant(Constant {
            value: string_step(size),
            size: OpSize::I64,
        }));
    let next_rsi = emit(stmts, Op::BinOp(BinOp {
            op: BinOpKind::Add,
            lhs: rsi,
            rhs: one,
            size: OpSize::I64,
        }));
    emit_void(stmts, Op::StoreReg(StoreReg {
            reg: Gpr::Rsi,
            value: next_rsi,
            size: OpSize::I64,
        }));
    let next_rdi = emit(stmts, Op::BinOp(BinOp {
            op: BinOpKind::Add,
            lhs: rdi,
            rhs: one,
            size: OpSize::I64,
        }));
    emit_void(stmts, Op::StoreReg(StoreReg {
            reg: Gpr::Rdi,
            value: next_rdi,
            size: OpSize::I64,
        }));
    assert(stmts@ =~= s0 + movs_code(*prefixes, opcode, s0.len() as int));
    Ok(1)
}

} // verus!
