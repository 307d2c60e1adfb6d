//! Opcode groups 1 to 5 and immediate multiply.

use vstd::prelude::*;

use crate::decoder::emit::{reads_defined_ref, 
    addr_code, addr_emitted, def, eff, op_ld_mem, op_st_mem, spec_add_signed_disp, le_value, mem_operand, modrm_bytes, op_bin, op_const,
    op_ld_reg, op_st_reg, reg_reg, rm_insn_len, rm_load, rm_ok, rm_reg, rm_store, rm_used, add_signed_disp, byte_at,
    bytes_for_modrm, emit, emit_addr_with_size, emit_addr_with_size_at, emit_rm_load, emit_rm_store, emit_void, map_reg,
    read_imm, room, ssa_wf,
};
use crate::decoder::modrm;
use crate::decoder::prefixes::{PrefixSet, operand_size, spec_operand_size};
use crate::decoder::DecodeError;
use crate::ir::{Ref, AluFlags, BinOp, BinOpKind, CallReg, CmpFlags, Constant, Gpr, JumpReg, LoadMem, LoadReg, Op, OpSize, RspAdjust, Stmt, StoreMem, StoreReg};

verus! {

/// INC/DEC r/m8 (FE /0, /1) at `cursor` when the list holds `s`
/// statements. Refused with a REP, LOCK or segment prefix or another reg
/// field.
pub open spec fn group4_code(p: PrefixSet, b: Seq<u8>, cursor: int, s: int) -> Result<(Seq<Stmt>, int), DecodeError> {
    let mc = cursor + 1;
    if p.rep is Some || p.lock || p.segment is Some {
        Err(DecodeError::UnsupportedOpcode(0xFE))
    } else if mc >= b.len() {
        Err(DecodeError::Truncated)
    } else {
        let m = modrm::modrm_of(b[mc]);
        if m.reg > 1 {
            Err(DecodeError::UnsupportedOpcode(0xFE))
        } else {
            inc_dec_code(p, m.reg == 0, OpSize::I8, m, b, mc, s)
        }
    }
}

/// An 8-bit immediate sign-extended to `size` (as an unsigned value of that
/// width).
pub open spec fn sext_imm8(imm: u8, size: OpSize) -> u64 {
    match size {
        OpSize::I64 => imm as i8 as i64 as u64,
        OpSize::I32 => imm as i8 as i32 as u32 as u64,
        OpSize::I16 => imm as i8 as i16 as u16 as u64,
        OpSize::I8 => imm as u64,
    }
}

/// IMUL reg, r/m, imm (69/6B) at `cursor` when the list holds `s`
/// statements: the r/m operand times the immediate (an 8-bit one
/// sign-extended for 6B) written to the register.
pub open spec fn imul_imm_code(p: PrefixSet, opcode: u8, b: Seq<u8>, cursor: int, s: int) -> Result<(Seq<Stmt>, int), DecodeError> {
    let size = spec_operand_size(p);
    let mc = cursor + 1;
    if mc >= b.len() {
        Err(DecodeError::Truncated)
    } else {
        let m = modrm::modrm_of(b[mc]);
        if m.rm == 4 && mc + 1 >= b.len() {
            Err(DecodeError::Truncated)
        } else {
            let mb = modrm_bytes(m, b, mc);
            let n: int = if opcode == 0x6B { 1 } else if size == OpSize::I16 { 2 } else { 4 };
            if mc + mb + n > b.len() {
                Err(DecodeError::Truncated)
            } else if !rm_ok(m, p, b, mc) {
                Err(mem_operand(m, p, b, mc)->Err_0)
            } else {
                let raw = le_value(b, mc + mb, n as nat) as u64;
                let imm = if opcode == 0x6B { sext_imm8(raw as u8, size) } else if size == OpSize::I64 { raw as i32 as i64 as u64 } else { raw };
                let r = rm_load(m, p, b, mc, 0, size, s);
                let k = s + r.0.len();
                Ok((r.0 + seq![
                    def(k, op_const(imm, size)),
                    def(k + 1, op_bin(BinOpKind::Mul, r.1, k, size)),
                    eff(op_st_reg(reg_reg(m, p), k + 1, size)),
                ], 1 + mb + n))
            }
        }
    }
}

#[verifier::spinoff_prover]
pub(crate) fn decode_group4(
    prefixes: &PrefixSet,
    bytes: &[u8],
    cursor: usize,
    stmts: &mut Vec<Stmt>,
) -> (res: Result<usize, DecodeError>)
    requires
        cursor < bytes.len(),
        bytes.len() <= isize::MAX,
        room(old(stmts)@),
        ssa_wf(old(stmts)@),
    ensures
        ssa_wf(final(stmts)@),
        old(stmts).len() <= final(stmts).len() <= old(stmts).len() + 0x100,
        res matches Ok(n) ==> 1 <= n <= 16,
        lowered(group4_code(*prefixes, bytes@, cursor as int, old(stmts).len() as int), old(stmts)@, final(stmts)@, res),
{
    if prefixes.rep.is_some() || prefixes.lock || prefixes.segment.is_some() {
        return Err(DecodeError::UnsupportedOpcode(0xFE));
    }

    let (modrm, _after) = modrm::parse_modrm(bytes, cursor + 1)?;
    let kind = match modrm.reg {
        0 => BinOpKind::Add,
        1 => BinOpKind::Sub,
        _ => return Err(DecodeError::UnsupportedOpcode(0xFE)),
    };
    emit_inc_dec(prefixes, kind == BinOpKind::Add, OpSize::I8, modrm, bytes, cursor + 1, stmts)
}

/// INC (FF /0) or DEC (/1) of the r/m operand of the ModR/M byte `m` at
/// `mc`: the constant one, the operand read, the sum or difference written
/// back.
pub open spec fn inc_dec_code(p: PrefixSet, is_inc: bool, size: OpSize, m: modrm::ModRm, b: Seq<u8>, mc: int, s: int) -> Result<(Seq<Stmt>, int), DecodeError> {
    if !rm_ok(m, p, b, mc) {
        Err(mem_operand(m, p, b, mc)->Err_0)
    } else {
        let r = rm_load(m, p, b, mc, 0, size, s + 1);
        let k = s + 1 + r.0.len();
        let kind = if is_inc { BinOpKind::Add } else { BinOpKind::Sub };
        Ok((seq![def(s, op_const(1, size))] + r.0 + seq![def(k, op_bin(kind, r.1, s, size)), rm_store(m, p, size, r.2, k)],
            rm_insn_len(m, b, mc)))
    }
}

/// The transfer an indirect CALL (`is_call`) or JMP makes to the target in
/// ref `target`, for an instruction of `len` bytes at `pc`.
pub open spec fn indirect_op(is_call: bool, target: int, pc: u64, len: int) -> Op {
    if is_call {
        Op::CallReg(CallReg { target: target as u32, return_guest_pc: spec_add_signed_disp(pc, len as i64) })
    } else {
        Op::JumpReg(JumpReg { target: target as u32 })
    }
}

/// Indirect CALL (FF /2) or JMP (/4) through the r/m operand of the
/// ModR/M byte `m` at `mc`. A memory target is loaded into the ref after
/// the address statements.
pub open spec fn indirect_code(p: PrefixSet, is_call: bool, size: OpSize, m: modrm::ModRm, b: Seq<u8>, mc: int, pc: u64, s: int) -> Result<(Seq<Stmt>, int), DecodeError> {
    if m.mod_ == 3 {
        Ok((seq![def(s, op_ld_reg(rm_reg(m, p), size)), eff(indirect_op(is_call, s, pc, 2))], 2))
    } else {
        match mem_operand(m, p, b, mc) {
            Err(e) => Err(e),
            Ok(a) => {
                let c = addr_code(a, 0, s);
                let len = 1 + modrm_bytes(m, b, mc);
                let k = s + c.0.len();
                Ok((c.0 + seq![def(k, op_ld_mem(c.1, size)), eff(indirect_op(is_call, k, pc, len))], len))
            },
        }
    }
}

/// PUSH r/m64 (FF /6): the operand read, RSP lowered by eight, and the
/// value stored at the new RSP.
pub open spec fn push_rm_code(p: PrefixSet, m: modrm::ModRm, b: Seq<u8>, mc: int, s: int) -> Result<(Seq<Stmt>, int), DecodeError> {
    if !rm_ok(m, p, b, mc) {
        Err(mem_operand(m, p, b, mc)->Err_0)
    } else {
        let r = rm_load(m, p, b, mc, 0, OpSize::I64, s);
        let k = s + r.0.len();
        Ok((r.0 + seq![
            eff(Op::RspAdjust(RspAdjust { delta_bytes: -8i64 })),
            def(k + 1, op_ld_reg(Gpr::Rsp, OpSize::I64)),
            eff(op_st_mem(k + 1, r.1, OpSize::I64)),
        ], rm_insn_len(m, b, mc)))
    }
}

/// What FF (group 5) at `cursor`, for an instruction at `pc`, lowers to when
/// the list holds `s` statements: /0 INC, /1 DEC, /2 CALL, /4 JMP, /6 PUSH;
/// the other forms are refused.
pub open spec fn group5_code(p: PrefixSet, b: Seq<u8>, cursor: int, pc: u64, s: int) -> Result<(Seq<Stmt>, int), DecodeError> {
    let size = spec_operand_size(p);
    let mc = cursor + 1;
    if mc >= b.len() {
        Err(DecodeError::Truncated)
    } else {
        let m = modrm::modrm_of(b[mc]);
        if m.reg == 0 || m.reg == 1 {
            inc_dec_code(p, m.reg == 0, size, m, b, mc, s)
        } else if m.reg == 2 || m.reg == 4 {
            indirect_code(p, m.reg == 2, size, m, b, mc, pc, s)
        } else if m.reg == 6 {
            push_rm_code(p, m, b, mc, s)
        } else {
            Err(DecodeError::UnsupportedOpcode(0xFF))
        }
    }
}

#[verifier::spinoff_prover]
pub(crate) fn decode_group5(
    prefixes: &PrefixSet,
    bytes: &[u8],
    cursor: usize,
    opcode_guest_pc: u64,
    stmts: &mut Vec<Stmt>,
) -> (res: Result<usize, DecodeError>)
    requires
        cursor < bytes.len(),
        bytes.len() <= isize::MAX,
        room(old(stmts)@),
        ssa_wf(old(stmts)@),
    ensures
        ssa_wf(final(stmts)@),
        old(stmts).len() <= final(stmts).len() <= old(stmts).len() + 0x100,
        res matches Ok(n) ==> 1 <= n <= 16,
        lowered(group5_code(*prefixes, bytes@, cursor as int, opcode_guest_pc, old(stmts).len() as int), old(stmts)@, final(stmts)@, res),
{
    let size = operand_size(prefixes, true);
    let (modrm, _after) = modrm::parse_modrm(bytes, cursor + 1)?;

    match modrm.reg {
        // inc r/m, dec r/m
        0 | 1 => emit_inc_dec(prefixes, modrm.reg == 0, size, modrm, bytes, cursor + 1, stmts),
        // call r/m, jmp r/m
        2 | 4 => emit_indirect(prefixes, modrm.reg == 2, size, modrm, bytes, cursor + 1, opcode_guest_pc, stmts),
        // push r/m64
        6 => emit_push_rm(prefixes, modrm, bytes, cursor + 1, stmts),
        _ => Err(DecodeError::UnsupportedOpcode(0xFF)),
    }
}

/// INC or DEC of the r/m operand of the ModR/M byte at `mc`.
#[verifier::spinoff_prover]
fn emit_inc_dec(
    prefixes: &PrefixSet,
    is_inc: bool,
    size: OpSize,
    modrm: modrm::ModRm,
    bytes: &[u8],
    mc: usize,
    stmts: &mut Vec<Stmt>,
) -> (res: Result<usize, DecodeError>)
    requires
        mc < bytes.len(),
        bytes.len() <= isize::MAX,
        room(old(stmts)@),
        ssa_wf(old(stmts)@),
    ensures
        ssa_wf(final(stmts)@),
        old(stmts).len() <= final(stmts).len() <= old(stmts).len() + 0x100,
        res matches Ok(n) ==> 1 <= n <= 16,
        lowered(inc_dec_code(*prefixes, is_inc, size, modrm, bytes@, mc as int, old(stmts).len() as int), old(stmts)@, final(stmts)@, res),
{
    let ghost s0 = stmts@;
    let one = emit(stmts, Op::Constant(Constant { value: 1, size }));
    let (value_ref, addr_ref, used) = emit_rm_load(modrm, prefixes, bytes, mc, 0, size, stmts)?;
    let ghost s1 = stmts@;
    let result_ref = emit(stmts, Op::BinOp(BinOp {
            op: if is_inc { BinOpKind::Add } else { BinOpKind::Sub },
            lhs: value_ref,
            rhs: one,
            size,
        }));
    emit_rm_store(modrm, prefixes, size, addr_ref, result_ref, stmts);
    proof {
        let r = rm_load(modrm, *prefixes, bytes@, mc as int, 0, size, s0.len() + 1int);
        let k: int = s0.len() as int + 1 + r.0.len();
        let kind = if is_inc { BinOpKind::Add } else { BinOpKind::Sub };
        assert(stmts@ =~= s0 + (seq![def(s0.len() as int, op_const(1, size))] + r.0
            + seq![def(k, op_bin(kind, r.1, s0.len() as int, size)), rm_store(modrm, *prefixes, size, r.2, k)]));
    }
    Ok(1 + used)
}

/// Indirect CALL or JMP through the r/m operand of the ModR/M byte at `mc`.
#[verifier::spinoff_prover]
fn emit_indirect(
    prefixes: &PrefixSet,
    is_call: bool,
    size: OpSize,
    modrm: modrm::ModRm,
    bytes: &[u8],
    mc: usize,
    opcode_guest_pc: u64,
    stmts: &mut Vec<Stmt>,
) -> (res: Result<usize, DecodeError>)
    requires
        mc < bytes.len(),
        bytes.len() <= isize::MAX,
        room(old(stmts)@),
        ssa_wf(old(stmts)@),
    ensures
        ssa_wf(final(stmts)@),
        old(stmts).len() <= final(stmts).len() <= old(stmts).len() + 0x100,
        res matches Ok(n) ==> 1 <= n <= 16,
        lowered(indirect_code(*prefixes, is_call, size, modrm, bytes@, mc as int, opcode_guest_pc, old(stmts).len() as int), old(stmts)@, final(stmts)@, res),
{
    let ghost s0 = stmts@;
    if modrm.mod_ == 3 {
        let src_reg = map_reg(modrm.rm, &prefixes.rex, false);
        let target_ref = emit(stmts, Op::LoadReg(LoadReg { reg: src_reg, size }));
        if is_call {
            emit_void(stmts, Op::CallReg(CallReg {
                    target: target_ref,
                    return_guest_pc: add_signed_disp(opcode_guest_pc, 2),
                }));
        } else {
            emit_void(stmts, Op::JumpReg(JumpReg { target: target_ref }));
        }
        proof {
            assert(stmts@ =~= s0 + seq![def(s0.len() as int, op_ld_reg(rm_reg(modrm, *prefixes), size)),
                eff(indirect_op(is_call, s0.len() as int, opcode_guest_pc, 2))]);
        }
        Ok(2)
    } else {
        let (addr_ref, used) = emit_addr_with_size(modrm, prefixes, bytes, mc, stmts)?;
        let ghost s1 = stmts@;
        let target_ref = emit(stmts, Op::LoadMem(LoadMem {
                addr: addr_ref,
                size,
            }));
        if is_call {
            emit_void(stmts, Op::CallReg(CallReg {
                    target: target_ref,
                    return_guest_pc: add_signed_disp(opcode_guest_pc, (1 + used) as i64),
                }));
        } else {
            emit_void(stmts, Op::JumpReg(JumpReg { target: target_ref }));
        }
        proof {
            let c = addr_code(mem_operand(modrm, *prefixes, bytes@, mc as int)->Ok_0, 0, s0.len() as int);
            let len = 1 + modrm_bytes(modrm, bytes@, mc as int);
            let k: int = s0.len() as int + c.0.len();
            assert(s1 =~= s0 + c.0);
            assert(stmts@ =~= s0 + (c.0 + seq![def(k, op_ld_mem(c.1, size)),
                eff(indirect_op(is_call, k, opcode_guest_pc, len))]));
        }
        Ok(1 + used)
    }
}

/// PUSH of the 64-bit r/m operand of the ModR/M byte at `mc`.
#[verifier::spinoff_prover]
fn emit_push_rm(
    prefixes: &PrefixSet,
    modrm: modrm::ModRm,
    bytes: &[u8],
    mc: usize,
    stmts: &mut Vec<Stmt>,
) -> (res: Result<usize, DecodeError>)
    requires
        mc < bytes.len(),
        bytes.len() <= isize::MAX,
        room(old(stmts)@),
        ssa_wf(old(stmts)@),
    ensures
        ssa_wf(final(stmts)@),
        old(stmts).len() <= final(stmts).len() <= old(stmts).len() + 0x100,
        res matches Ok(n) ==> 1 <= n <= 16,
        lowered(push_rm_code(*prefixes, modrm, bytes@, mc as int, old(stmts).len() as int), old(stmts)@, final(stmts)@, res),
{
    let ghost s0 = stmts@;
    let (value, _addr, used) = emit_rm_load(modrm, prefixes, bytes, mc, 0, OpSize::I64, stmts)?;
    emit_void(stmts, Op::RspAdjust(RspAdjust { delta_bytes: -8 }));
    let rsp = emit(stmts, Op::LoadReg(LoadReg {
            reg: Gpr::Rsp,
            size: OpSize::I64,
        }));
    emit_void(stmts, Op::StoreMem(StoreMem {
            addr: rsp,
            value,
            size: OpSize::I64,
        }));
    proof {
        let r = rm_load(modrm, *prefixes, bytes@, mc as int, 0, OpSize::I64, s0.len() as int);
        let k: int = s0.len() as int + r.0.len();
        assert(stmts@ =~= s0 + (r.0 + seq![
            eff(Op::RspAdjust(RspAdjust { delta_bytes: -8i64 })),
            def(k + 1, op_ld_reg(Gpr::Rsp, OpSize::I64)),
            eff(op_st_mem(k + 1, r.1, OpSize::I64)),
        ]));
    }
    Ok(1 + used)
}

// MUL/IMUL (Group 3 /4,/5) and DIV/IDIV (/6,/7), register-direct only.
// The operand is RAX-only, full 128-bit RDX:RAX is deferred — most
// compiler output zero/sign-extends RDX first, so this covers the common
// case. low/quotient -> RAX, high/remainder -> RDX.
/// RAX combined with `src` into a low and a high half, written to RAX and
/// RDX, when the list holds `s` statements.
pub open spec fn rax_rdx_code(src: Gpr, size: OpSize, lo: BinOpKind, hi: BinOpKind, s: int) -> Seq<Stmt> {
    seq![
        def(s, op_ld_reg(Gpr::Rax, size)),
        def(s + 1, op_ld_reg(src, size)),
        def(s + 2, op_bin(lo, s, s + 1, size)),
        def(s + 3, op_bin(hi, s, s + 1, size)),
        eff(op_st_reg(Gpr::Rax, s + 2, size)),
        eff(op_st_reg(Gpr::Rdx, s + 3, size)),
    ]
}

pub(crate) fn emit_rax_rdx_pair(
    stmts: &mut Vec<Stmt>,
    src_reg: Gpr,
    size: OpSize,
    lo_kind: BinOpKind,
    hi_kind: BinOpKind,
) 
    requires
        room(old(stmts)@),
        ssa_wf(old(stmts)@),
    ensures
        ssa_wf(final(stmts)@),
        old(stmts).len() <= final(stmts).len() <= old(stmts).len() + 0x100,
        final(stmts)@ == old(stmts)@ + rax_rdx_code(src_reg, size, lo_kind, hi_kind, old(stmts).len() as int),
{
    let rax_ref = emit(stmts, Op::LoadReg(LoadReg {
            reg: Gpr::Rax,
            size,
        }));
    let rhs_ref = emit(stmts, Op::LoadReg(LoadReg { reg: src_reg, size }));
    let lo_ref = emit(stmts, Op::BinOp(BinOp {
            op: lo_kind,
            lhs: rax_ref,
            rhs: rhs_ref,
            size,
        }));
    let hi_ref = emit(stmts, Op::BinOp(BinOp {
            op: hi_kind,
            lhs: rax_ref,
            rhs: rhs_ref,
            size,
        }));
    emit_void(stmts, Op::StoreReg(StoreReg {
            reg: Gpr::Rax,
            value: lo_ref,
            size,
        }));
    emit_void(stmts, Op::StoreReg(StoreReg {
            reg: Gpr::Rdx,
            value: hi_ref,
            size,
        }));
}

#[verifier::spinoff_prover]
/// TEST r/m, imm (F6/F7 /0) with ModR/M `m` at `cursor + 1`: the immediate
/// as a constant, the operand read, and flags from their AND.
pub open spec fn test_rm_imm_code(p: PrefixSet, opcode: u8, size: OpSize, m: modrm::ModRm, b: Seq<u8>, cursor: int, s: int) -> Result<(Seq<Stmt>, int), DecodeError> {
    let mc = cursor + 1;
    if m.rm == 4 && mc + 1 >= b.len() {
        Err(DecodeError::Truncated)
    } else {
        let mb = modrm_bytes(m, b, mc);
        let imm_bytes: int = if opcode == 0xF6 { 1 } else if size == OpSize::I16 { 2 } else { 4 };
        let off = mc + mb;
        if off + imm_bytes > b.len() {
            Err(DecodeError::Truncated)
        } else if !rm_ok(m, p, b, mc) {
            Err(mem_operand(m, p, b, mc)->Err_0)
        } else {
            let raw = le_value(b, off, imm_bytes as nat) as u64;
            let imm = if opcode == 0xF7 && size == OpSize::I64 { raw as i32 as i64 as u64 } else { raw };
            let r = rm_load(m, p, b, mc, 0, size, s + 1);
            let flags = Op::AluFlags(AluFlags { op: BinOpKind::And, lhs: r.1 as u32, rhs: s as u32, size });
            Ok((seq![def(s, op_const(imm, size))] + r.0 + seq![eff(flags)], 1 + mb + imm_bytes))
        }
    }
}

/// NOT (F6/F7 /2: XOR with all ones) or NEG (/3: zero minus the operand)
/// of the r/m operand of ModR/M `m` at `mc`, written back.
pub open spec fn not_neg_code(p: PrefixSet, is_not: bool, size: OpSize, m: modrm::ModRm, b: Seq<u8>, mc: int, s: int) -> Result<(Seq<Stmt>, int), DecodeError> {
    if !rm_ok(m, p, b, mc) {
        Err(mem_operand(m, p, b, mc)->Err_0)
    } else {
        let r = rm_load(m, p, b, mc, 0, size, s);
        let k = s + r.0.len();
        let calc = if is_not {
            seq![def(k, op_const(size.spec_mask(), size)), def(k + 1, op_bin(BinOpKind::Xor, r.1, k, size))]
        } else {
            seq![def(k, op_const(0, size)), def(k + 1, op_bin(BinOpKind::Sub, k, r.1, size))]
        };
        Ok((r.0 + calc + seq![rm_store(m, p, size, r.2, k + 1)], rm_insn_len(m, b, mc)))
    }
}

/// What F6/F7 (group 3) at `cursor` lowers to when the list holds `s`
/// statements: the statements and the instruction's length, or the error.
/// /0 TEST, /2 NOT, /3 NEG; /4../7 (register operand only) form the RAX:RDX
/// product or quotient and remainder; /1 is refused.
pub open spec fn group3_code(p: PrefixSet, opcode: u8, b: Seq<u8>, cursor: int, s: int) -> Result<(Seq<Stmt>, int), DecodeError> {
    let size = if opcode == 0xF6 { OpSize::I8 } else { spec_operand_size(p) };
    let mc = cursor + 1;
    if mc >= b.len() {
        Err(DecodeError::Truncated)
    } else {
        let m = modrm::modrm_of(b[mc]);
        if m.reg == 0 {
            test_rm_imm_code(p, opcode, size, m, b, cursor, s)
        } else if m.reg == 2 || m.reg == 3 {
            not_neg_code(p, m.reg == 2, size, m, b, mc, s)
        } else if m.reg >= 4 {
            if m.mod_ != 3 {
                Err(DecodeError::UnsupportedOpcode(opcode))
            } else {
                let kinds = if m.reg == 4 {
                    (BinOpKind::Mul, BinOpKind::UMulHi)
                } else if m.reg == 5 {
                    (BinOpKind::Mul, BinOpKind::SMulHi)
                } else if m.reg == 6 {
                    (BinOpKind::UDiv, BinOpKind::UMod)
                } else {
                    (BinOpKind::SDiv, BinOpKind::SMod)
                };
                Ok((rax_rdx_code(rm_reg(m, p), size, kinds.0, kinds.1, s), 2))
            }
        } else {
            Err(DecodeError::UnsupportedOpcode(opcode))
        }
    }
}

/// The x86 group-3 table for F6 and F7: ModR/M.reg 2 is NOT (exclusive or
/// with all ones of the size), 3 is NEG (zero minus the operand), and 4 to 7
/// (register operands) are MUL, IMUL, DIV and IDIV: RAX is read with the
/// source register, RAX gets the low product or the quotient and RDX the
/// high product (unsigned for MUL, signed for IMUL) or the remainder
/// (unsigned for DIV, signed for IDIV).
pub proof fn law_group3_follows_x86_table(p: PrefixSet, opcode: u8, b: Seq<u8>, cursor: int, s: int)
    requires
        group3_code(p, opcode, b, cursor, s) is Ok,
        0 <= s < 0x1_0000,
    ensures
        ({
            let code = group3_code(p, opcode, b, cursor, s)->Ok_0.0;
            let m = modrm::modrm_of(b[cursor + 1]);
            let size = if opcode == 0xF6 { OpSize::I8 } else { spec_operand_size(p) };
            &&& m.reg != 1
            &&& m.reg >= 4 ==> {
                &&& code.len() == 6
                &&& code[0] == Stmt { result: Some(s as u32), op: Op::LoadReg(LoadReg { reg: Gpr::Rax, size }) }
                &&& code[1].result == Some((s + 1) as u32) && code[1].op is LoadReg
                &&& code[2].result == Some((s + 2) as u32)
                &&& code[3].result == Some((s + 3) as u32)
                &&& code[2].op matches Op::BinOp(x) && x.lhs == s as u32 && x.rhs == (s + 1) as u32 && x.size == size && {
                    &&& (m.reg == 4 || m.reg == 5) ==> x.op == BinOpKind::Mul
                    &&& m.reg == 6 ==> x.op == BinOpKind::UDiv
                    &&& m.reg == 7 ==> x.op == BinOpKind::SDiv
                }
                &&& code[3].op matches Op::BinOp(y) && y.lhs == s as u32 && y.rhs == (s + 1) as u32 && y.size == size && {
                    &&& m.reg == 4 ==> y.op == BinOpKind::UMulHi
                    &&& m.reg == 5 ==> y.op == BinOpKind::SMulHi
                    &&& m.reg == 6 ==> y.op == BinOpKind::UMod
                    &&& m.reg == 7 ==> y.op == BinOpKind::SMod
                }
                &&& code[4].op == Op::StoreReg(StoreReg { reg: Gpr::Rax, value: (s + 2) as u32, size })
                &&& code[5].op == Op::StoreReg(StoreReg { reg: Gpr::Rdx, value: (s + 3) as u32, size })
            }
            &&& (m.reg == 2 || m.reg == 3) ==> exists|i: int| 0 < i < code.len() && ((#[trigger] code[i]).op matches Op::BinOp(x) && {
                &&& m.reg == 2 ==> x.op == BinOpKind::Xor
                    && code[i - 1] == Stmt { result: Some(x.rhs), op: Op::Constant(Constant { value: size.spec_mask(), size }) }
                &&& m.reg == 3 ==> x.op == BinOpKind::Sub
                    && code[i - 1] == Stmt { result: Some(x.lhs), op: Op::Constant(Constant { value: 0, size }) }
            })
        }),
{
    let mc = cursor + 1;
    let m = modrm::modrm_of(b[mc]);
    let size = if opcode == 0xF6 { OpSize::I8 } else { spec_operand_size(p) };
    let code = group3_code(p, opcode, b, cursor, s)->Ok_0.0;
    if m.reg == 2 || m.reg == 3 {
        let r = rm_load(m, p, b, mc, 0, size, s);
        let k = s + r.0.len();
        let i: int = r.0.len() as int + 1;
        assert(code[i] == def(k + 1, if m.reg == 2 { op_bin(BinOpKind::Xor, r.1, k, size) } else { op_bin(BinOpKind::Sub, k, r.1, size) }));
        assert(code[i - 1] == def(k, op_const(if m.reg == 2 { size.spec_mask() } else { 0 }, size)));
    }
}

/// `res` and the statements after a handler call agree with `code`: on
/// success exactly its statements were appended and its length returned.
pub open spec fn lowered(code: Result<(Seq<Stmt>, int), DecodeError>, before: Seq<Stmt>, after: Seq<Stmt>, res: Result<usize, DecodeError>) -> bool {
    match code {
        Ok((c, n)) => res is Ok && res->Ok_0 == n && after == before + c,
        Err(e) => res == Err::<usize, DecodeError>(e),
    }
}

pub(crate) fn decode_group3(
    prefixes: &PrefixSet,
    opcode: u8,
    bytes: &[u8],
    cursor: usize,
    stmts: &mut Vec<Stmt>,
) -> (res: Result<usize, DecodeError>)
    requires
        cursor < bytes.len(),
        bytes.len() <= isize::MAX,
        room(old(stmts)@),
        ssa_wf(old(stmts)@),
    ensures
        ssa_wf(final(stmts)@),
        old(stmts).len() <= final(stmts).len() <= old(stmts).len() + 0x100,
        res matches Ok(n) ==> 1 <= n <= 16,
        lowered(group3_code(*prefixes, opcode, bytes@, cursor as int, old(stmts).len() as int), old(stmts)@, final(stmts)@, res),
{
    let size = if opcode == 0xF6 {
        OpSize::I8
    } else {
        operand_size(prefixes, true)
    };
    let (modrm, _after) = modrm::parse_modrm(bytes, cursor + 1)?;

    match modrm.reg {
        // test r/m, imm: flags = dst & imm
        0 => group3_test(prefixes, opcode, size, modrm, bytes, cursor, stmts),
        // not: dst = all_ones XOR dst; neg: dst = 0 - dst
        2 | 3 => emit_not_neg(prefixes, modrm.reg == 2, size, modrm, bytes, cursor + 1, stmts),
        // mul/imul (/4,/5) + div/idiv (/6,/7), register-direct only.
        4 | 5 | 6 | 7 => {
            if modrm.mod_ != 3 {
                return Err(DecodeError::UnsupportedOpcode(opcode));
            }
            let src_reg = map_reg(modrm.rm, &prefixes.rex, false);
            let (lo_kind, hi_kind) = match modrm.reg {
                4 => (BinOpKind::Mul, BinOpKind::UMulHi), // mul
                5 => (BinOpKind::Mul, BinOpKind::SMulHi), // imul
                6 => (BinOpKind::UDiv, BinOpKind::UMod),  // div
                _ => (BinOpKind::SDiv, BinOpKind::SMod),  // idiv (7)
            };
            emit_rax_rdx_pair(stmts, src_reg, size, lo_kind, hi_kind);
            Ok(2)
        }
        _ => Err(DecodeError::UnsupportedOpcode(opcode)),
    }
}

/// TEST r/m, imm (F6/F7 /0).
#[verifier::spinoff_prover]
fn group3_test(
    prefixes: &PrefixSet,
    opcode: u8,
    size: OpSize,
    modrm: modrm::ModRm,
    bytes: &[u8],
    cursor: usize,
    stmts: &mut Vec<Stmt>,
) -> (res: Result<usize, DecodeError>)
    requires
        cursor + 1 < bytes.len(),
        bytes.len() <= isize::MAX,
        room(old(stmts)@),
        ssa_wf(old(stmts)@),
    ensures
        ssa_wf(final(stmts)@),
        old(stmts).len() <= final(stmts).len() <= old(stmts).len() + 0x100,
        res matches Ok(n) ==> 1 <= n <= 16,
        lowered(test_rm_imm_code(*prefixes, opcode, size, modrm, bytes@, cursor as int, old(stmts).len() as int), old(stmts)@, final(stmts)@, res),
{
    let modrm_bytes = bytes_for_modrm(&modrm, bytes, cursor + 1)?;
    let imm_offset = cursor + 1 + modrm_bytes;
    let imm_bytes = if opcode == 0xF6 {
        1
    } else if size == OpSize::I16 {
        2
    } else {
        4
    };
    let mut imm = read_imm(bytes, imm_offset, imm_bytes)?;
    if opcode == 0xF7 && size == OpSize::I64 {
        imm = (imm as i32 as i64 as u64);
    }
    let ghost s0 = stmts@;
    let rhs = emit(stmts, Op::Constant(Constant { value: imm, size }));
    let ghost s1 = stmts@;
    let (lhs, _addr, _used) = emit_rm_load(modrm, prefixes, bytes, cursor + 1, 0, size, stmts)?;
    let ghost s2 = stmts@;
    emit_void(stmts, Op::AluFlags(AluFlags {
            op: BinOpKind::And,
            lhs,
            rhs,
            size,
        }));
    proof {
        let r = rm_load(modrm, *prefixes, bytes@, cursor + 1, 0, size, s0.len() + 1int);
        assert(stmts@ =~= s0 + (seq![def(s0.len() as int, op_const(imm, size))] + r.0
            + seq![eff(Op::AluFlags(AluFlags { op: BinOpKind::And, lhs: r.1 as u32, rhs: s0.len() as u32, size }))]));
    }
    Ok(1 + modrm_bytes + imm_bytes)
}

/// NOT or NEG of the r/m operand of the ModR/M byte at `mc`.
#[verifier::spinoff_prover]
fn emit_not_neg(
    prefixes: &PrefixSet,
    is_not: bool,
    size: OpSize,
    modrm: modrm::ModRm,
    bytes: &[u8],
    mc: usize,
    stmts: &mut Vec<Stmt>,
) -> (res: Result<usize, DecodeError>)
    requires
        mc < bytes.len(),
        bytes.len() <= isize::MAX,
        room(old(stmts)@),
        ssa_wf(old(stmts)@),
    ensures
        ssa_wf(final(stmts)@),
        old(stmts).len() <= final(stmts).len() <= old(stmts).len() + 0x100,
        res matches Ok(n) ==> 1 <= n <= 16,
        lowered(not_neg_code(*prefixes, is_not, size, modrm, bytes@, mc as int, old(stmts).len() as int), old(stmts)@, final(stmts)@, res),
{
    let ghost s0 = stmts@;
    let (value_ref, addr_ref, used) = emit_rm_load(modrm, prefixes, bytes, mc, 0, size, stmts)?;
    let ghost s1 = stmts@;
    let result_ref = if is_not {
        let mask_ref = emit(stmts, Op::Constant(Constant {
                value: size.mask(),
                size,
            }));
        emit(stmts, Op::BinOp(BinOp {
                op: BinOpKind::Xor,
                lhs: value_ref,
                rhs: mask_ref,
                size,
            }))
    } else {
        let zero_ref = emit(stmts, Op::Constant(Constant { value: 0, size }));
        emit(stmts, Op::BinOp(BinOp {
                op: BinOpKind::Sub,
                lhs: zero_ref,
                rhs: value_ref,
                size,
            }))
    };
    let ghost s2 = stmts@;
    emit_rm_store(modrm, prefixes, size, addr_ref, result_ref, stmts);
    proof {
        let r = rm_load(modrm, *prefixes, bytes@, mc as int, 0, size, s0.len() as int);
        let k: int = s0.len() as int + r.0.len();
        assert(s1.len() == k);
        let calc = if is_not {
            seq![def(k, op_const(size.spec_mask(), size)), def(k + 1, op_bin(BinOpKind::Xor, r.1, k, size))]
        } else {
            seq![def(k, op_const(0, size)), def(k + 1, op_bin(BinOpKind::Sub, k, r.1, size))]
        };
        assert(s2 =~= s1 + calc);
        assert(stmts@ =~= s0 + (r.0 + calc + seq![rm_store(modrm, *prefixes, size, r.2, k + 1)]));
    }
    Ok(1 + used)
}

/// `kind` of the r/m operand of the ModR/M byte `m` at `mc` and the ref
/// `rhs`, written back, when the list holds `s` statements.
pub open spec fn rm_update_code(p: PrefixSet, m: modrm::ModRm, b: Seq<u8>, mc: int, rip_after: u64, size: OpSize, kind: BinOpKind, rhs: int, s: int) -> Seq<Stmt> {
    let r = rm_load(m, p, b, mc, rip_after, size, s);
    let k = s + r.0.len();
    r.0 + seq![def(k, op_bin(kind, r.1, rhs, size)), rm_store(m, p, size, r.2, k)]
}

/// Read the r/m operand of the ModR/M byte at `mc`, combine it by `kind`
/// with `rhs`, and write the result back; returns the bytes the operand
/// takes.
#[verifier::spinoff_prover]
pub(crate) fn emit_rm_update(
    prefixes: &PrefixSet,
    modrm: modrm::ModRm,
    bytes: &[u8],
    mc: usize,
    rip_after: u64,
    size: OpSize,
    kind: BinOpKind,
    rhs: Ref,
    stmts: &mut Vec<Stmt>,
) -> (res: Result<usize, DecodeError>)
    requires
        mc < bytes.len(),
        bytes.len() <= isize::MAX,
        old(stmts).len() <= 0x1010,
        ssa_wf(old(stmts)@),
        reads_defined_ref(old(stmts)@, rhs),
    ensures
        ssa_wf(final(stmts)@),
        old(stmts).len() <= final(stmts).len() <= old(stmts).len() + 0x10,
        rm_ok(modrm, *prefixes, bytes@, mc as int) ==> res == Ok::<usize, DecodeError>(rm_used(modrm, bytes@, mc as int) as usize)
            && final(stmts)@ == old(stmts)@ + rm_update_code(*prefixes, modrm, bytes@, mc as int, rip_after, size, kind, rhs as int, old(stmts).len() as int),
        !rm_ok(modrm, *prefixes, bytes@, mc as int) ==> res == Err::<usize, DecodeError>(mem_operand(modrm, *prefixes, bytes@, mc as int)->Err_0),
        res matches Ok(u) ==> 1 <= u <= 6,
{
    let ghost s0 = stmts@;
    let (value, addr, used) = emit_rm_load(modrm, prefixes, bytes, mc, rip_after, size, stmts)?;
    let result = emit(stmts, Op::BinOp(BinOp {
            op: kind,
            lhs: value,
            rhs,
            size,
        }));
    emit_rm_store(modrm, prefixes, size, addr, result, stmts);
    proof {
        let r = rm_load(modrm, *prefixes, bytes@, mc as int, rip_after, size, s0.len() as int);
        let k: int = s0.len() as int + r.0.len();
        assert(stmts@ =~= s0 + (r.0 + seq![def(k, op_bin(kind, r.1, rhs as int, size)), rm_store(modrm, *prefixes, size, r.2, k)]));
    }
    Ok(used)
}

/// What a shift or rotate (C0/C1 by an immediate, D0/D1 by one, D2/D3 by
/// CL) at `cursor` lowers to when the list holds `s` statements: the count
/// first (an 8-bit constant, or CL), then the operand read, shifted and
/// written back. /0 ROL, /1 ROR, /4 SHL, /5 SHR, /7 SAR; the rest are
/// refused.
pub open spec fn group2_code(p: PrefixSet, opcode: u8, b: Seq<u8>, cursor: int, s: int) -> Result<(Seq<Stmt>, int), DecodeError> {
    let size = if opcode == 0xC0 || opcode == 0xD0 || opcode == 0xD2 { OpSize::I8 } else { spec_operand_size(p) };
    let mc = cursor + 1;
    if mc >= b.len() {
        Err(DecodeError::Truncated)
    } else {
        let m = modrm::modrm_of(b[mc]);
        if !(m.reg == 0 || m.reg == 1 || m.reg == 4 || m.reg == 5 || m.reg == 7) {
            Err(DecodeError::UnsupportedOpcode(opcode))
        } else if m.rm == 4 && mc + 1 >= b.len() {
            Err(DecodeError::Truncated)
        } else {
            let kind = if m.reg == 0 {
                BinOpKind::Rol
            } else if m.reg == 1 {
                BinOpKind::Ror
            } else if m.reg == 4 {
                BinOpKind::Shl
            } else if m.reg == 5 {
                BinOpKind::Shr
            } else {
                BinOpKind::Sar
            };
            let mb = modrm_bytes(m, b, mc);
            let by_imm = opcode == 0xC0 || opcode == 0xC1;
            if !(by_imm || opcode == 0xD0 || opcode == 0xD1 || opcode == 0xD2 || opcode == 0xD3) {
                Err(DecodeError::UnsupportedOpcode(opcode))
            } else if by_imm && mc + mb >= b.len() {
                Err(DecodeError::Truncated)
            } else if !rm_ok(m, p, b, mc) {
                Err(mem_operand(m, p, b, mc)->Err_0)
            } else {
                let count = if by_imm {
                    op_const(b[mc + mb] as u64, OpSize::I8)
                } else if opcode == 0xD0 || opcode == 0xD1 {
                    op_const(1, OpSize::I8)
                } else {
                    op_ld_reg(Gpr::Rcx, OpSize::I8)
                };
                Ok((seq![def(s, count)] + rm_update_code(p, m, b, mc, 0, size, kind, s, s + 1),
                    1 + mb + (if by_imm { 1int } else { 0int })))
            }
        }
    }
}

/// The x86 group-2 table: for C0, C1 and D0 to D3, ModR/M.reg 0 is ROL,
/// 1 ROR, 4 SHL, 5 SHR (logical) and 7 SAR (arithmetic). A decoded group-2
/// instruction first makes its count (the immediate byte for C0/C1, 1 for
/// D0/D1, CL for D2/D3) and then shifts or rotates the operand by it with
/// the operation the table gives, at byte size for C0, D0 and D2.
pub proof fn law_group2_follows_x86_table(p: PrefixSet, opcode: u8, b: Seq<u8>, cursor: int, s: int)
    requires
        group2_code(p, opcode, b, cursor, s) is Ok,
        0 <= s < 0x1_0000,
    ensures
        ({
            let code = group2_code(p, opcode, b, cursor, s)->Ok_0.0;
            let reg = modrm::modrm_of(b[cursor + 1]).reg;
            &&& opcode == 0xC0 || opcode == 0xC1 || opcode == 0xD0 || opcode == 0xD1 || opcode == 0xD2 || opcode == 0xD3
            &&& reg == 0 || reg == 1 || reg == 4 || reg == 5 || reg == 7
            &&& code.len() > 0 && code[0].result == Some(s as u32)
            &&& (opcode == 0xD0 || opcode == 0xD1) ==> code[0].op == Op::Constant(Constant { value: 1, size: OpSize::I8 })
            &&& (opcode == 0xD2 || opcode == 0xD3) ==> code[0].op == Op::LoadReg(LoadReg { reg: Gpr::Rcx, size: OpSize::I8 })
            &&& (opcode == 0xC0 || opcode == 0xC1) ==> code[0].op == Op::Constant(Constant {
                value: b[cursor + group2_code(p, opcode, b, cursor, s)->Ok_0.1 - 1] as u64,
                size: OpSize::I8,
            })
            &&& exists|i: int| 1 < i < code.len() - 1 && ((#[trigger] code[i]).op matches Op::BinOp(x) && {
                &&& x.rhs == s as u32
                &&& code[i - 1].result == Some(x.lhs)
                &&& (code[i - 1].op is LoadReg || code[i - 1].op is LoadMem)
                &&& code[i].result is Some
                &&& (code[i + 1].op matches Op::StoreReg(st) && st.value == code[i].result->0)
                    || (code[i + 1].op matches Op::StoreMem(st) && st.value == code[i].result->0)
                &&& (opcode == 0xC0 || opcode == 0xD0 || opcode == 0xD2) ==> x.size == OpSize::I8
                &&& reg == 0 ==> x.op == BinOpKind::Rol
                &&& reg == 1 ==> x.op == BinOpKind::Ror
                &&& reg == 4 ==> x.op == BinOpKind::Shl
                &&& reg == 5 ==> x.op == BinOpKind::Shr
                &&& reg == 7 ==> x.op == BinOpKind::Sar
            })
        }),
{
    let mc = cursor + 1;
    let m = modrm::modrm_of(b[mc]);
    let size = if opcode == 0xC0 || opcode == 0xD0 || opcode == 0xD2 { OpSize::I8 } else { spec_operand_size(p) };
    let kind = if m.reg == 0 {
        BinOpKind::Rol
    } else if m.reg == 1 {
        BinOpKind::Ror
    } else if m.reg == 4 {
        BinOpKind::Shl
    } else if m.reg == 5 {
        BinOpKind::Shr
    } else {
        BinOpKind::Sar
    };
    let code = group2_code(p, opcode, b, cursor, s)->Ok_0.0;
    let r = rm_load(m, p, b, mc, 0, size, s + 1);
    let i: int = 1 + r.0.len() as int;
    assert(code[i] == def(s + 1 + r.0.len(), op_bin(kind, r.1, s, size)));
    assert(code[i + 1] == rm_store(m, p, size, r.2, s + 1 + r.0.len()));
    assert(r.0.len() > 0);
    assert(code[i - 1] == r.0[r.0.len() - 1]);
    if m.mod_ == 3 {
        assert(r.0[r.0.len() - 1] == def(s + 1, op_ld_reg(rm_reg(m, p), size)));
    } else {
        let c = addr_code(mem_operand(m, p, b, mc)->Ok_0, 0, s + 1);
        assert(r.0[r.0.len() - 1] == def(s + 1 + c.0.len(), op_ld_mem(c.1, size)));
    }
    assert(code[i].op matches Op::BinOp(x) && x.rhs == s as u32);
}

#[verifier::spinoff_prover]
pub(crate) fn decode_group2(
    prefixes: &PrefixSet,
    opcode: u8,
    bytes: &[u8],
    cursor: usize,
    stmts: &mut Vec<Stmt>,
) -> (res: Result<usize, DecodeError>)
    requires
        cursor < bytes.len(),
        bytes.len() <= isize::MAX,
        room(old(stmts)@),
        ssa_wf(old(stmts)@),
    ensures
        ssa_wf(final(stmts)@),
        old(stmts).len() <= final(stmts).len() <= old(stmts).len() + 0x100,
        res matches Ok(n) ==> 1 <= n <= 16,
        lowered(group2_code(*prefixes, opcode, bytes@, cursor as int, old(stmts).len() as int), old(stmts)@, final(stmts)@, res),
{
    let size = if matches!(opcode, 0xC0 | 0xD0 | 0xD2) {
        OpSize::I8
    } else {
        operand_size(prefixes, true)
    };
    let (modrm, _after) = modrm::parse_modrm(bytes, cursor + 1)?;
    let op = match modrm.reg {
        0 => BinOpKind::Rol,
        1 => BinOpKind::Ror,
        4 => BinOpKind::Shl,
        5 => BinOpKind::Shr,
        7 => BinOpKind::Sar,
        _ => return Err(DecodeError::UnsupportedOpcode(opcode)),
    };
    let modrm_bytes = bytes_for_modrm(&modrm, bytes, cursor + 1)?;
    let ghost s0 = stmts@;
    let (shift, extra_bytes) = match opcode {
        0xC0 | 0xC1 => {
            let imm_offset = cursor + 1 + modrm_bytes;
            let imm = (byte_at(bytes, imm_offset)? as u64);
            let shift = emit(stmts, Op::Constant(Constant {
                    value: imm,
                    size: OpSize::I8,
                }));
            (shift, 1)
        }
        0xD0 | 0xD1 => {
            let shift = emit(stmts, Op::Constant(Constant {
                    value: 1,
                    size: OpSize::I8,
                }));
            (shift, 0)
        }
        0xD2 | 0xD3 => {
            let shift = emit(stmts, Op::LoadReg(LoadReg {
                    reg: Gpr::Rcx,
                    size: OpSize::I8,
                }));
            (shift, 0)
        }
        _ => return Err(DecodeError::UnsupportedOpcode(opcode)),
    };
    let ghost s1 = stmts@;
    emit_rm_update(prefixes, modrm, bytes, cursor + 1, 0, size, op, shift, stmts)?;
    proof {
        assert(stmts@ =~= s0 + (seq![s1.last()] + rm_update_code(*prefixes, modrm, bytes@, cursor + 1, 0, size, op, s0.len() as int, s0.len() + 1int)));
    }

    Ok(1 + modrm_bytes + extra_bytes)
}

/// An imm8 sign-extended to the operand size (zero-extended above it).
pub(crate) fn sign_extend_imm8_to_size(imm: u8, size: OpSize) -> (r: u64)
    ensures
        r == sext_imm8(imm, size),
        size == OpSize::I64 ==> r == imm as i8 as i64 as u64,
        size == OpSize::I32 ==> r == imm as i8 as i32 as u32 as u64,
        size == OpSize::I16 ==> r == imm as i8 as i16 as u16 as u64,
        size == OpSize::I8 ==> r == imm as u64,
{
    match size {
        OpSize::I64 => imm as i8 as i64 as u64,
        OpSize::I32 => imm as i8 as i32 as u32 as u64,
        OpSize::I16 => imm as i8 as i16 as u16 as u64,
        OpSize::I8 => imm as u64,
    }
}

/// The operation a group-1 reg field selects: /1 OR, /4 AND, /6 XOR, /0
/// and /2 ADD, /3 and /5 SUB (carry and borrow are not modelled); /7 CMP
/// gives `None`.
pub open spec fn group1_kind(reg: u8) -> Option<BinOpKind> {
    if reg == 1 {
        Some(BinOpKind::Or)
    } else if reg == 4 {
        Some(BinOpKind::And)
    } else if reg == 6 {
        Some(BinOpKind::Xor)
    } else if reg == 0 || reg == 2 {
        Some(BinOpKind::Add)
    } else if reg == 3 || reg == 5 {
        Some(BinOpKind::Sub)
    } else {
        None
    }
}

/// The r/m operand of the ModR/M byte `m` at `mc` compared with the ref
/// `rhs` (no `kind`: CMP), or combined with it by `kind` and written back,
/// from the next free ref `s`.
pub open spec fn group1_body(p: PrefixSet, m: modrm::ModRm, b: Seq<u8>, mc: int, rip_after: u64, size: OpSize, kind: Option<BinOpKind>, rhs: int, s: int) -> Seq<Stmt> {
    match kind {
        None => {
            let r = rm_load(m, p, b, mc, rip_after, size, s);
            let k = s + r.0.len();
            r.0 + seq![def(k, Op::CmpFlags(CmpFlags { lhs: r.1 as u32, rhs: rhs as u32, size }))]
        },
        Some(op) => rm_update_code(p, m, b, mc, rip_after, size, op, rhs, s),
    }
}

/// The x86 group-1 table for 80, 81 and 83: ModR/M.reg 0 is ADD, 1 OR,
/// 4 AND, 5 SUB, 6 XOR and 7 CMP (ADC at 2 and SBB at 3 are lowered as ADD
/// and SUB). A decoded group-1 instruction first makes its immediate (the
/// byte itself for 80, the byte sign-extended for 83) and then combines the
/// operand with it by the operation the table gives, or compares them for
/// CMP.
pub proof fn law_group1_follows_x86_table(p: PrefixSet, opcode: u8, b: Seq<u8>, cursor: int, pc: u64, s: int)
    requires
        group1_code(p, opcode, b, cursor, pc, s) is Ok,
        0 <= s < 0x1_0000,
    ensures
        ({
            let code = group1_code(p, opcode, b, cursor, pc, s)->Ok_0.0;
            let n = group1_code(p, opcode, b, cursor, pc, s)->Ok_0.1;
            let reg = modrm::modrm_of(b[cursor + 1]).reg;
            &&& opcode == 0x80 || opcode == 0x81 || opcode == 0x83
            &&& code.len() > 0 && code[0].result == Some(s as u32)
            &&& code[0].op is Constant
            &&& opcode == 0x80 ==> code[0].op->Constant_0.value == b[cursor + n - 1] as u64
                && code[0].op->Constant_0.size == OpSize::I8
            &&& opcode == 0x83 ==> (code[0].op->Constant_0.value as int == if b[cursor + n - 1] < 0x80 {
                b[cursor + n - 1] as int
            } else {
                b[cursor + n - 1] as int + 0xFFFF_FFFF_FFFF_FF00
            })
            &&& reg == 7 ==> exists|i: int| 0 < i < code.len() && ((#[trigger] code[i]).op matches Op::CmpFlags(x) && x.rhs == s as u32)
            &&& reg != 7 ==> exists|i: int| 0 < i < code.len() && ((#[trigger] code[i]).op matches Op::BinOp(x) && {
                &&& x.rhs == s as u32
                &&& (reg == 0 || reg == 2) ==> x.op == BinOpKind::Add
                &&& reg == 1 ==> x.op == BinOpKind::Or
                &&& (reg == 3 || reg == 5) ==> x.op == BinOpKind::Sub
                &&& reg == 4 ==> x.op == BinOpKind::And
                &&& reg == 6 ==> x.op == BinOpKind::Xor
            })
        }),
{
    let mc = cursor + 1;
    let m = modrm::modrm_of(b[mc]);
    let size = if opcode == 0x80 { OpSize::I8 } else { spec_operand_size(p) };
    let mb = modrm_bytes(m, b, mc);
    let off = mc + mb;
    let imm_bytes: int = if opcode == 0x81 { if size == OpSize::I16 { 2 } else { 4 } } else { 1 };
    let len = 1 + mb + imm_bytes;
    let rip_after = if m.mod_ == 3 { 0 } else { pc.wrapping_add(len as u64) };
    let code = group1_code(p, opcode, b, cursor, pc, s)->Ok_0.0;
    let byte = b[mc];
    assert((byte >> 3u8) & 0x7 < 8) by (bit_vector);
    assert(m.reg < 8);
    if opcode == 0x83 {
        let x = b[off];
        let v = x as i8 as i64 as u64;
        assert(v as int == if x < 0x80 { x as int } else { x as int + 0xFFFF_FFFF_FFFF_FF00 }) by (bit_vector)
            requires
                v == x as i8 as i64 as u64;
    }
    if opcode == 0x80 {
        assert(le_value(b, off + 1, 0) == 0);
        assert(le_value(b, off, 1) == b[off]);
    }
    assert(group1_code(p, opcode, b, cursor, pc, s)->Ok_0.1 == len);
    assert(opcode != 0x81 ==> cursor + len - 1 == off);
    let r = rm_load(m, p, b, mc, rip_after, size, s + 1);
    let i: int = 1 + r.0.len() as int;
    if m.reg == 7 {
        assert(code[i] == def(s + 1 + r.0.len(), Op::CmpFlags(CmpFlags { lhs: r.1 as u32, rhs: s as u32, size })));
        assert(code[i].op matches Op::CmpFlags(x) && x.rhs == s as u32);
    } else {
        let kind = group1_kind(m.reg)->0;
        assert(code[i] == def(s + 1 + r.0.len(), op_bin(kind, r.1, s, size)));
        assert(code[i].op matches Op::BinOp(x) && x.rhs == s as u32);
    }
}

/// Compare the r/m operand with `rhs`, or combine it with `rhs` and write
/// it back.
#[verifier::spinoff_prover]
fn emit_group1_body(
    prefixes: &PrefixSet,
    modrm: modrm::ModRm,
    bytes: &[u8],
    mc: usize,
    rip_after: u64,
    size: OpSize,
    kind: Option<BinOpKind>,
    rhs: Ref,
    stmts: &mut Vec<Stmt>,
) -> (res: Result<(), DecodeError>)
    requires
        mc < bytes.len(),
        bytes.len() <= isize::MAX,
        old(stmts).len() <= 0x1010,
        ssa_wf(old(stmts)@),
        reads_defined_ref(old(stmts)@, rhs),
    ensures
        ssa_wf(final(stmts)@),
        old(stmts).len() <= final(stmts).len() <= old(stmts).len() + 0x10,
        rm_ok(modrm, *prefixes, bytes@, mc as int) ==> res is Ok
            && final(stmts)@ == old(stmts)@ + group1_body(*prefixes, modrm, bytes@, mc as int, rip_after, size, kind, rhs as int, old(stmts).len() as int),
        !rm_ok(modrm, *prefixes, bytes@, mc as int) ==> res == Err::<(), DecodeError>(mem_operand(modrm, *prefixes, bytes@, mc as int)->Err_0),
{
    let ghost s0 = stmts@;
    match kind {
        None => {
            let (lhs, _addr, _used) = emit_rm_load(modrm, prefixes, bytes, mc, rip_after, size, stmts)?;
            emit(stmts, Op::CmpFlags(CmpFlags {
                    lhs,
                    rhs,
                    size,
                }));
            proof {
                let r = rm_load(modrm, *prefixes, bytes@, mc as int, rip_after, size, s0.len() as int);
                let k: int = s0.len() as int + r.0.len();
                assert(stmts@ =~= s0 + (r.0 + seq![def(k, Op::CmpFlags(CmpFlags { lhs: r.1 as u32, rhs: rhs as u32, size }))]));
            }
        },
        Some(k) => {
            emit_rm_update(prefixes, modrm, bytes, mc, rip_after, size, k, rhs, stmts)?;
        },
    }
    Ok(())
}

/// What 80/81/83 (group 1, r/m with an immediate) at `cursor`, for an
/// instruction at `pc`, lowers to when the list holds `s` statements: the
/// immediate as a constant, then the operand read and either compared with
/// it (CMP) or combined with it and written back.
pub open spec fn group1_code(p: PrefixSet, opcode: u8, b: Seq<u8>, cursor: int, pc: u64, s: int) -> Result<(Seq<Stmt>, int), DecodeError> {
    let size = if opcode == 0x80 { OpSize::I8 } else { spec_operand_size(p) };
    let mc = cursor + 1;
    if mc >= b.len() {
        Err(DecodeError::Truncated)
    } else {
        let m = modrm::modrm_of(b[mc]);
        if m.rm == 4 && mc + 1 >= b.len() {
            Err(DecodeError::Truncated)
        } else if !(opcode == 0x80 || opcode == 0x81 || opcode == 0x83) {
            Err(DecodeError::UnsupportedOpcode(opcode))
        } else {
            let mb = modrm_bytes(m, b, mc);
            let off = mc + mb;
            let imm_bytes: int = if opcode == 0x81 { if size == OpSize::I16 { 2 } else { 4 } } else { 1 };
            if off + imm_bytes > b.len() {
                Err(DecodeError::Truncated)
            } else if !rm_ok(m, p, b, mc) {
                Err(mem_operand(m, p, b, mc)->Err_0)
            } else {
                let raw: u64 = if opcode == 0x83 { b[off] as i8 as i64 as u64 } else { le_value(b, off, imm_bytes as nat) as u64 };
                let imm = if opcode == 0x81 && size == OpSize::I64 { raw as i32 as i64 as u64 } else { raw };
                let len = 1 + mb + imm_bytes;
                let rip_after = if m.mod_ == 3 { 0 } else { pc.wrapping_add(len as u64) };
                Ok((seq![def(s, op_const(imm, size))] + group1_body(p, m, b, mc, rip_after, size, group1_kind(m.reg), s, s + 1), len))
            }
        }
    }
}

#[verifier::spinoff_prover]
pub(crate) fn decode_alu_rm_imm(
    prefixes: &PrefixSet,
    opcode: u8,
    bytes: &[u8],
    cursor: usize,
    opcode_guest_pc: u64,
    stmts: &mut Vec<Stmt>,
) -> (res: Result<usize, DecodeError>)
    requires
        cursor < bytes.len(),
        bytes.len() <= isize::MAX,
        room(old(stmts)@),
        ssa_wf(old(stmts)@),
    ensures
        ssa_wf(final(stmts)@),
        old(stmts).len() <= final(stmts).len() <= old(stmts).len() + 0x100,
        res matches Ok(n) ==> 1 <= n <= 16,
        lowered(group1_code(*prefixes, opcode, bytes@, cursor as int, opcode_guest_pc, old(stmts).len() as int), old(stmts)@, final(stmts)@, res),
{
    let size = if opcode == 0x80 {
        OpSize::I8
    } else {
        operand_size(prefixes, true)
    };
    let (modrm, _after) = modrm::parse_modrm(bytes, cursor + 1)?;
    let kind = match modrm.reg {
        1 => Some(BinOpKind::Or),
        4 => Some(BinOpKind::And),
        6 => Some(BinOpKind::Xor),
        0 | 2 => Some(BinOpKind::Add),
        3 | 5 => Some(BinOpKind::Sub),
        7 => None,
        _ => return Err(DecodeError::UnsupportedOpcode(opcode)),
    };
    let modrm_bytes = bytes_for_modrm(&modrm, bytes, cursor + 1)?;
    let imm_offset = cursor + 1 + modrm_bytes;
    let imm_bytes = match opcode {
        0x80 | 0x83 => 1,
        0x81 if size == OpSize::I16 => 2,
        0x81 => 4,
        _ => return Err(DecodeError::UnsupportedOpcode(opcode)),
    };
    let mut imm = if opcode == 0x83 {
        byte_at(bytes, imm_offset)? as i8 as i64 as u64
    } else {
        read_imm(bytes, imm_offset, imm_bytes)?
    };
    if opcode == 0x81 && size == OpSize::I64 {
        imm = (imm as i32 as i64 as u64);
    }
    let ghost s0 = stmts@;
    let imm_ref = emit(stmts, Op::Constant(Constant { value: imm, size }));
    let ghost s1 = stmts@;
    let rip_after = if modrm.mod_ == 3 {
        0
    } else {
        opcode_guest_pc.wrapping_add(1 + modrm_bytes as u64 + imm_bytes as u64)
    };
    emit_group1_body(prefixes, modrm, bytes, cursor + 1, rip_after, size, kind, imm_ref, stmts)?;
    proof {
        assert(kind == group1_kind(modrm.reg));
        assert(stmts@ =~= s0 + (seq![s1.last()] + group1_body(*prefixes, modrm, bytes@, cursor + 1, rip_after, size, kind, s0.len() as int, s0.len() + 1int)));
    }
    Ok(1 + modrm_bytes + imm_bytes)
}

#[verifier::spinoff_prover]
#[verifier::rlimit(40)]
pub(crate) fn decode_imul_imm(
    prefixes: &PrefixSet,
    opcode: u8,
    bytes: &[u8],
    cursor: usize,
    stmts: &mut Vec<Stmt>,
) -> (res: Result<usize, DecodeError>)
    requires
        cursor < bytes.len(),
        bytes.len() <= isize::MAX,
        room(old(stmts)@),
        ssa_wf(old(stmts)@),
    ensures
        ssa_wf(final(stmts)@),
        old(stmts).len() <= final(stmts).len() <= old(stmts).len() + 0x100,
        res matches Ok(n) ==> 1 <= n <= 16,
        lowered(imul_imm_code(*prefixes, opcode, bytes@, cursor as int, old(stmts).len() as int), old(stmts)@, final(stmts)@, res),
{
    let size = operand_size(prefixes, true);
    let (modrm, _after) = modrm::parse_modrm(bytes, cursor + 1)?;
    let modrm_bytes = bytes_for_modrm(&modrm, bytes, cursor + 1)?;
    let imm_bytes = if opcode == 0x6B {
        1
    } else if size == OpSize::I16 {
        2
    } else {
        4
    };
    let imm_offset = cursor + 1 + modrm_bytes;
    let mut imm = read_imm(bytes, imm_offset, imm_bytes)?;
    if opcode == 0x6B {
        imm = sign_extend_imm8_to_size(imm as u8, size);
    } else if size == OpSize::I64 {
        imm = (imm as i32 as i64 as u64);
    }

    let dst_reg = map_reg(modrm.reg, &prefixes.rex, true);
    let ghost s0 = stmts@;
    let (lhs, _addr, _used) = emit_rm_load(modrm, prefixes, bytes, cursor + 1, 0, size, stmts)?;
    let rhs = emit(stmts, Op::Constant(Constant { value: imm, size }));
    let result = emit(stmts, Op::BinOp(BinOp {
            op: BinOpKind::Mul,
            lhs,
            rhs,
            size,
        }));
    emit_void(stmts, Op::StoreReg(StoreReg {
            reg: dst_reg,
            value: result,
            size,
        }));
    proof {
        let r = rm_load(modrm, *prefixes, bytes@, cursor + 1, 0, size, s0.len() as int);
        let k: int = s0.len() as int + r.0.len();
        assert(stmts@ =~= s0 + (r.0 + seq![
            def(k, op_const(imm, size)),
            def(k + 1, op_bin(BinOpKind::Mul, r.1, k, size)),
            eff(op_st_reg(reg_reg(modrm, *prefixes), k + 1, size)),
        ]));
    }
    Ok(1 + modrm_bytes + imm_bytes)
}

} // verus!
