//! Control flow and stack push/pop.

use vstd::prelude::*;

use crate::decoder::emit::{
    add_signed_disp, def, eff, emit_rm_write, le_value, op_bin, op_const, op_ld_mem, op_ld_reg, op_st_mem, op_st_reg,
    rm_insn_len, rm_ok, rm_write_code, mem_operand, spec_add_signed_disp, byte_at, emit, emit_addr_with_size, emit_void,
    map_reg, map_reg_raw, read_imm, room, ssa_wf,
};
use crate::decoder::groups::lowered;
use crate::decoder::modrm;
use crate::decoder::prefixes::{PrefixSet};
use crate::decoder::DecodeError;
use crate::ir::{BinOp, BinOpKind, CallRel, CmpFlags, CondCode, CondJumpRel, Constant, Gpr, JumpRel, LoadMem, LoadReg, Op, OpSize, RetAdjusted, Return, RspAdjust, Stmt, StoreMem, StoreReg};

verus! {

/// The condition a Jcc/SETcc/CMOVcc opcode's low nibble selects (parity
/// conditions are unsupported).
pub open spec fn spec_jcc_condition(opcode: u8) -> Option<CondCode> {
    let n = opcode & 0x0F;
    if n == 0x0 { Some(CondCode::Ov) }
    else if n == 0x1 { Some(CondCode::NoOv) }
    else if n == 0x2 { Some(CondCode::Nc) }
    else if n == 0x3 { Some(CondCode::Cc) }
    else if n == 0x4 { Some(CondCode::Eq) }
    else if n == 0x5 { Some(CondCode::Ne) }
    else if n == 0x6 { Some(CondCode::Ule) }
    else if n == 0x7 { Some(CondCode::Ugt) }
    else if n == 0x8 { Some(CondCode::Mi) }
    else if n == 0x9 { Some(CondCode::Pl) }
    else if n == 0xC { Some(CondCode::Slt) }
    else if n == 0xD { Some(CondCode::Sge) }
    else if n == 0xE { Some(CondCode::Sle) }
    else if n == 0xF { Some(CondCode::Sgt) }
    else { None }
}

pub(crate) fn jcc_condition(opcode: u8) -> (r: Option<CondCode>)
    ensures
        r == spec_jcc_condition(opcode),
{
    match opcode & 0x0F {
        0x0 => Some(CondCode::Ov),
        0x1 => Some(CondCode::NoOv),
        0x2 => Some(CondCode::Nc),
        0x3 => Some(CondCode::Cc),
        0x4 => Some(CondCode::Eq),
        0x5 => Some(CondCode::Ne),
        0x6 => Some(CondCode::Ule),
        0x7 => Some(CondCode::Ugt),
        0x8 => Some(CondCode::Mi),
        0x9 => Some(CondCode::Pl),
        0xC => Some(CondCode::Slt),
        0xD => Some(CondCode::Sge),
        0xE => Some(CondCode::Sle),
        0xF => Some(CondCode::Sgt),
        _ => None,
    }
}

/// A conditional jump on `cc` to `fallthrough + rel`, else to `fallthrough`.
pub open spec fn cond_jump(cc: CondCode, fallthrough: u64, rel: i64) -> Stmt {
    eff(Op::CondJumpRel(CondJumpRel { cc, target_guest_pc: spec_add_signed_disp(fallthrough, rel), fallthrough_guest_pc: fallthrough }))
}

/// Jcc rel8 (70..7F) at `cursor`, for an instruction at `pc`.
pub open spec fn cond_jump_rel8_code(b: Seq<u8>, cursor: int, pc: u64) -> Result<(Seq<Stmt>, int), DecodeError> {
    match spec_jcc_condition(b[cursor]) {
        None => Err(DecodeError::UnsupportedOpcode(b[cursor])),
        Some(cc) => if cursor + 1 >= b.len() {
            Err(DecodeError::Truncated)
        } else {
            Ok((seq![cond_jump(cc, spec_add_signed_disp(pc, 2), b[cursor + 1] as i8 as i64)], 2))
        },
    }
}

/// Jcc rel32 (0F 80..8F, `cursor` at the 0F byte), for an instruction at
/// `pc`: six bytes long, five of them after the 0F.
pub open spec fn cond_jump_rel32_code(opcode: u8, b: Seq<u8>, cursor: int, pc: u64) -> Result<(Seq<Stmt>, int), DecodeError> {
    match spec_jcc_condition(opcode) {
        None => Err(DecodeError::UnsupportedOpcode(opcode)),
        Some(cc) => if cursor + 6 > b.len() {
            Err(DecodeError::Truncated)
        } else {
            Ok((seq![cond_jump(cc, spec_add_signed_disp(pc, 6), modrm::le32(b, cursor + 2) as i32 as i64)], 5))
        },
    }
}

/// JRCXZ/LOOP take no REX, operand-size, LOCK, segment or REP prefix.
pub open spec fn counter_prefixes_ok(p: PrefixSet) -> bool {
    !p.rex.present && !p.operand_override && !p.lock && p.segment is None && p.rep is None
}

/// The counter register's width: ECX under an address-size prefix, else RCX.
pub open spec fn counter_size(p: PrefixSet) -> OpSize {
    if p.addr_override { OpSize::I32 } else { OpSize::I64 }
}

/// JRCXZ rel8 (E3) at `cursor`, for an instruction at `pc`, when the list
/// holds `s` statements: jump when the counter is zero.
pub open spec fn jrcxz_code(p: PrefixSet, b: Seq<u8>, cursor: int, pc: u64, s: int) -> Result<(Seq<Stmt>, int), DecodeError> {
    let size = counter_size(p);
    if !counter_prefixes_ok(p) {
        Err(DecodeError::UnsupportedOpcode(0xE3))
    } else if cursor + 1 >= b.len() {
        Err(DecodeError::Truncated)
    } else {
        Ok((seq![
            def(s, op_ld_reg(Gpr::Rcx, size)),
            def(s + 1, op_const(0, size)),
            def(s + 2, Op::CmpFlags(CmpFlags { lhs: s as u32, rhs: (s + 1) as u32, size })),
            cond_jump(CondCode::Eq, spec_add_signed_disp(pc, 2), b[cursor + 1] as i8 as i64),
        ], 2))
    }
}

/// LOOP rel8 (E2) at `cursor`, for an instruction at `pc`, when the list
/// holds `s` statements: the counter decremented and written back, and a
/// jump while it is not zero.
pub open spec fn loop_code(p: PrefixSet, b: Seq<u8>, cursor: int, pc: u64, s: int) -> Result<(Seq<Stmt>, int), DecodeError> {
    let size = counter_size(p);
    if !counter_prefixes_ok(p) {
        Err(DecodeError::UnsupportedOpcode(0xE2))
    } else if cursor + 1 >= b.len() {
        Err(DecodeError::Truncated)
    } else {
        Ok((seq![
            def(s, op_ld_reg(Gpr::Rcx, size)),
            def(s + 1, op_const(1, size)),
            def(s + 2, op_bin(BinOpKind::Sub, s, s + 1, size)),
            eff(op_st_reg(Gpr::Rcx, s + 2, size)),
            def(s + 4, op_const(0, size)),
            def(s + 5, Op::CmpFlags(CmpFlags { lhs: (s + 2) as u32, rhs: (s + 4) as u32, size })),
            cond_jump(CondCode::Ne, spec_add_signed_disp(pc, 2), b[cursor + 1] as i8 as i64),
        ], 2))
    }
}

/// RET imm16 (C2) at `cursor`: return and release the immediate's bytes
/// plus the return address.
pub open spec fn ret_imm16_code(p: PrefixSet, b: Seq<u8>, cursor: int) -> Result<(Seq<Stmt>, int), DecodeError> {
    if !ret_prefixes_ok(p) {
        Err(DecodeError::UnsupportedOpcode(0xC2))
    } else if cursor + 3 > b.len() {
        Err(DecodeError::Truncated)
    } else {
        Ok((seq![eff(Op::RetAdjusted(RetAdjusted { pop_bytes: (le_value(b, cursor + 1, 2) + 8) as u64 }))], 3))
    }
}

/// LEAVE (C9) when the list holds `s` statements: RSP from RBP, then RBP
/// popped.
pub open spec fn leave_code(p: PrefixSet, s: int) -> Result<(Seq<Stmt>, int), DecodeError> {
    if !ret_prefixes_ok(p) {
        Err(DecodeError::UnsupportedOpcode(0xC9))
    } else {
        Ok((seq![
            def(s, op_ld_reg(Gpr::Rbp, OpSize::I64)),
            eff(op_st_reg(Gpr::Rsp, s, OpSize::I64)),
            def(s + 2, op_ld_reg(Gpr::Rsp, OpSize::I64)),
            def(s + 3, op_ld_mem(s + 2, OpSize::I64)),
            eff(op_st_reg(Gpr::Rbp, s + 3, OpSize::I64)),
            eff(Op::RspAdjust(RspAdjust { delta_bytes: 8i64 })),
        ], 1))
    }
}

/// Pushing the 64-bit value in ref `v`, the RSP adjustment standing at
/// position `s`.
pub open spec fn push_code(v: int, s: int) -> Seq<Stmt> {
    seq![
        eff(Op::RspAdjust(RspAdjust { delta_bytes: -8i64 })),
        def(s + 1, op_ld_reg(Gpr::Rsp, OpSize::I64)),
        eff(op_st_mem(s + 1, v, OpSize::I64)),
    ]
}

/// ENTER imm16, 0 (C8) at `cursor` when the list holds `s` statements: RBP
/// pushed, RBP set to the new RSP, and the frame allocated. Nesting levels
/// other than zero are refused.
pub open spec fn enter_code(p: PrefixSet, b: Seq<u8>, cursor: int, s: int) -> Result<(Seq<Stmt>, int), DecodeError> {
    if !ret_prefixes_ok(p) || p.addr_override || p.rep is Some {
        Err(DecodeError::UnsupportedOpcode(0xC8))
    } else if cursor + 3 >= b.len() {
        Err(DecodeError::Truncated)
    } else if b[cursor + 3] != 0 {
        Err(DecodeError::UnsupportedOpcode(0xC8))
    } else {
        let alloc = le_value(b, cursor + 1, 2);
        let frame = seq![def(s, op_ld_reg(Gpr::Rbp, OpSize::I64))] + push_code(s, s + 1)
            + seq![eff(op_st_reg(Gpr::Rbp, s + 2, OpSize::I64))];
        Ok((if alloc != 0 { frame + seq![eff(Op::RspAdjust(RspAdjust { delta_bytes: (-alloc) as i64 }))] } else { frame }, 4))
    }
}

/// PUSH r64 (50+r) when the list holds `s` statements.
pub open spec fn push_r_code(p: PrefixSet, opcode: u8, s: int) -> Seq<Stmt> {
    seq![def(s, op_ld_reg(modrm::ext_reg(opcode & 0x7, p.rex.b), OpSize::I64))] + push_code(s, s + 1)
}

/// PUSH imm8/imm32 (6A/68) at `cursor` when the list holds `s` statements:
/// the sign-extended immediate (16 bits under an operand-size prefix)
/// pushed. Refused with a REX, LOCK or segment prefix.
pub open spec fn push_imm_code(p: PrefixSet, opcode: u8, b: Seq<u8>, cursor: int, s: int) -> Result<(Seq<Stmt>, int), DecodeError> {
    if p.rex.present || p.lock || p.segment is Some {
        Err(DecodeError::UnsupportedOpcode(opcode))
    } else if opcode == 0x6A {
        if cursor + 1 >= b.len() {
            Err(DecodeError::Truncated)
        } else {
            Ok((seq![def(s, op_const(b[cursor + 1] as i8 as i64 as u64, OpSize::I64))] + push_code(s, s + 1), 2))
        }
    } else {
        let n: int = if p.operand_override { 2 } else { 4 };
        if cursor + 1 + n > b.len() {
            Err(DecodeError::Truncated)
        } else {
            let raw = le_value(b, cursor + 1, n as nat) as u64;
            let imm = if n == 4 { raw as i32 as i64 as u64 } else { raw };
            Ok((seq![def(s, op_const(imm, OpSize::I64))] + push_code(s, s + 1), 1 + n))
        }
    }
}

/// POP r64 (58+r) when the list holds `s` statements.
pub open spec fn pop_r_code(p: PrefixSet, opcode: u8, s: int) -> Seq<Stmt> {
    seq![
        def(s, op_ld_reg(Gpr::Rsp, OpSize::I64)),
        def(s + 1, op_ld_mem(s, OpSize::I64)),
        eff(op_st_reg(modrm::ext_reg(opcode & 0x7, p.rex.b), s + 1, OpSize::I64)),
        eff(Op::RspAdjust(RspAdjust { delta_bytes: 8i64 })),
    ]
}

/// POP r/m64 (8F /0) at `cursor` when the list holds `s` statements: the
/// top of stack read, written to the operand, and RSP raised.
pub open spec fn pop_rm_code(p: PrefixSet, b: Seq<u8>, cursor: int, s: int) -> Result<(Seq<Stmt>, int), DecodeError> {
    let mc = cursor + 1;
    if mc >= b.len() {
        Err(DecodeError::Truncated)
    } else {
        let m = modrm::modrm_of(b[mc]);
        if m.reg != 0 {
            Err(DecodeError::UnsupportedOpcode(0x8F))
        } else if !rm_ok(m, p, b, mc) {
            Err(mem_operand(m, p, b, mc)->Err_0)
        } else {
            let w = rm_write_code(p, m, b, mc, OpSize::I64, s + 1, s + 2);
            Ok((seq![def(s, op_ld_reg(Gpr::Rsp, OpSize::I64)), def(s + 1, op_ld_mem(s, OpSize::I64))] + w
                + seq![eff(Op::RspAdjust(RspAdjust { delta_bytes: 8i64 }))], rm_insn_len(m, b, mc)))
        }
    }
}

/// RET (C3): a return, refused with a REX, operand-size, LOCK or segment
/// prefix.
pub open spec fn ret_code(p: PrefixSet) -> Result<(Seq<Stmt>, int), DecodeError> {
    if ret_prefixes_ok(p) {
        Ok((seq![eff(Op::Return(Return))], 1))
    } else {
        Err(DecodeError::UnsupportedOpcode(0xC3))
    }
}

/// JMP rel8 (EB) at `cursor`, for an instruction at `pc`.
pub open spec fn jump_rel8_code(b: Seq<u8>, cursor: int, pc: u64) -> Result<(Seq<Stmt>, int), DecodeError> {
    if cursor + 1 < b.len() {
        Ok((seq![eff(Op::JumpRel(JumpRel { target_guest_pc: spec_add_signed_disp(spec_add_signed_disp(pc, 2), b[cursor + 1] as i8 as i64) }))], 2))
    } else {
        Err(DecodeError::Truncated)
    }
}

/// JMP rel32 (E9) at `cursor`, for an instruction at `pc`.
pub open spec fn jump_rel32_code(b: Seq<u8>, cursor: int, pc: u64) -> Result<(Seq<Stmt>, int), DecodeError> {
    if cursor + 5 <= b.len() {
        Ok((seq![eff(Op::JumpRel(JumpRel { target_guest_pc: spec_add_signed_disp(spec_add_signed_disp(pc, 5), modrm::le32(b, cursor + 1) as i32 as i64) }))], 5))
    } else {
        Err(DecodeError::Truncated)
    }
}

/// CALL rel32 (E8) at `cursor`, for an instruction at `pc`.
pub open spec fn call_rel32_code(b: Seq<u8>, cursor: int, pc: u64) -> Result<(Seq<Stmt>, int), DecodeError> {
    if cursor + 5 <= b.len() {
        Ok((seq![eff(Op::CallRel(CallRel {
            target_guest_pc: spec_add_signed_disp(spec_add_signed_disp(pc, 5), modrm::le32(b, cursor + 1) as i32 as i64),
            return_guest_pc: spec_add_signed_disp(pc, 5),
        }))], 5))
    } else {
        Err(DecodeError::Truncated)
    }
}

#[verifier::spinoff_prover]
pub(crate) fn decode_cond_jump_rel8(
    _prefixes: &PrefixSet,
    bytes: &[u8],
    cursor: usize,
    opcode_guest_pc: u64,
    stmts: &mut Vec<Stmt>,
) -> (res: Result<usize, DecodeError>)
    requires
        cursor < bytes.len(),
        bytes.len() <= isize::MAX,
        room(old(stmts)@),
        ssa_wf(old(stmts)@),
    ensures
        ssa_wf(final(stmts)@),
        old(stmts).len() <= final(stmts).len() <= old(stmts).len() + 0x100,
        res matches Ok(n) ==> 1 <= n <= 16,
        lowered(cond_jump_rel8_code(bytes@, cursor as int, opcode_guest_pc), old(stmts)@, final(stmts)@, res),
{
    let ghost s0 = stmts@;
    let opcode = byte_at(bytes, cursor)?;
    let cc = jcc_condition(opcode).ok_or(DecodeError::UnsupportedOpcode(opcode))?;
    let rel = (byte_at(bytes, cursor + 1)? as i8 as i64);
    let fallthrough = add_signed_disp(opcode_guest_pc, 2);
    let target = add_signed_disp(fallthrough, rel);
    emit_void(stmts, Op::CondJumpRel(CondJumpRel {
            cc,
            target_guest_pc: target,
            fallthrough_guest_pc: fallthrough,
        }));
    proof {
        assert(stmts@ =~= s0 + seq![cond_jump(cc, fallthrough, rel)]);
    }
    Ok(2)
}

#[verifier::spinoff_prover]
pub(crate) fn decode_cond_jump_rel32(
    opcode: u8,
    bytes: &[u8],
    cursor: usize,
    opcode_guest_pc: u64,
    stmts: &mut Vec<Stmt>,
) -> (res: Result<usize, DecodeError>)
    requires
        cursor < bytes.len(),
        bytes.len() <= isize::MAX,
        room(old(stmts)@),
        ssa_wf(old(stmts)@),
    ensures
        ssa_wf(final(stmts)@),
        old(stmts).len() <= final(stmts).len() <= old(stmts).len() + 0x100,
        res matches Ok(n) ==> 1 <= n <= 16,
        lowered(cond_jump_rel32_code(opcode, bytes@, cursor as int, opcode_guest_pc), old(stmts)@, final(stmts)@, res),
{
    let ghost s0 = stmts@;
    let cc = jcc_condition(opcode).ok_or(DecodeError::UnsupportedOpcode(opcode))?;
    let rel = modrm::read_u32(bytes, cursor + 2)? as i32 as i64;
    let fallthrough = add_signed_disp(opcode_guest_pc, 6);
    let target = add_signed_disp(fallthrough, rel);
    emit_void(stmts, Op::CondJumpRel(CondJumpRel {
            cc,
            target_guest_pc: target,
            fallthrough_guest_pc: fallthrough,
        }));
    proof {
        assert(stmts@ =~= s0 + seq![cond_jump(cc, fallthrough, rel)]);
    }
    Ok(5)
}

#[verifier::spinoff_prover]
pub(crate) fn decode_call_rel32(
    _prefixes: &PrefixSet,
    bytes: &[u8],
    cursor: usize,
    opcode_guest_pc: u64,
    stmts: &mut Vec<Stmt>,
) -> (res: Result<usize, DecodeError>)
    requires
        cursor < bytes.len(),
        bytes.len() <= isize::MAX,
        room(old(stmts)@),
        ssa_wf(old(stmts)@),
    ensures
        ssa_wf(final(stmts)@),
        old(stmts).len() <= final(stmts).len() <= old(stmts).len() + 0x100,
        res matches Ok(n) ==> 1 <= n <= 16,
        cursor + 5 <= bytes.len() ==> res == Ok::<usize, DecodeError>(5) && final(stmts)@ == old(stmts)@.push(Stmt { result: None, op: Op::CallRel(CallRel {
            target_guest_pc: spec_add_signed_disp(spec_add_signed_disp(opcode_guest_pc, 5), modrm::le32(bytes@, cursor + 1) as i32 as i64),
            return_guest_pc: spec_add_signed_disp(opcode_guest_pc, 5) }) }),
        cursor + 5 > bytes.len() ==> res == Err::<usize, DecodeError>(DecodeError::Truncated) && final(stmts)@ == old(stmts)@,
        lowered(call_rel32_code(bytes@, cursor as int, opcode_guest_pc), old(stmts)@, final(stmts)@, res),
{
    let rel = modrm::read_u32(bytes, cursor + 1)? as i32 as i64;
    let fallthrough = add_signed_disp(opcode_guest_pc, 5);
    let target = add_signed_disp(fallthrough, rel);
    emit_void(stmts, Op::CallRel(CallRel {
            target_guest_pc: target,
            return_guest_pc: fallthrough,
        }));
    assert(stmts@ =~= old(stmts)@ + seq![eff(Op::CallRel(CallRel { target_guest_pc: target, return_guest_pc: fallthrough }))]);
    Ok(5)
}

#[verifier::spinoff_prover]
pub(crate) fn decode_jump_rel8(
    _prefixes: &PrefixSet,
    bytes: &[u8],
    cursor: usize,
    opcode_guest_pc: u64,
    stmts: &mut Vec<Stmt>,
) -> (res: Result<usize, DecodeError>)
    requires
        cursor < bytes.len(),
        bytes.len() <= isize::MAX,
        room(old(stmts)@),
        ssa_wf(old(stmts)@),
    ensures
        ssa_wf(final(stmts)@),
        old(stmts).len() <= final(stmts).len() <= old(stmts).len() + 0x100,
        res matches Ok(n) ==> 1 <= n <= 16,
        cursor + 1 < bytes.len() ==> res == Ok::<usize, DecodeError>(2) && final(stmts)@ == old(stmts)@.push(Stmt { result: None, op: Op::JumpRel(JumpRel {
            target_guest_pc: spec_add_signed_disp(spec_add_signed_disp(opcode_guest_pc, 2), bytes@[cursor + 1] as i8 as i64) }) }),
        cursor + 1 >= bytes.len() ==> res == Err::<usize, DecodeError>(DecodeError::Truncated) && final(stmts)@ == old(stmts)@,
        lowered(jump_rel8_code(bytes@, cursor as int, opcode_guest_pc), old(stmts)@, final(stmts)@, res),
{
    let rel = (byte_at(bytes, cursor + 1)? as i8 as i64);
    let target = add_signed_disp(add_signed_disp(opcode_guest_pc, 2), rel);
    emit_void(stmts, Op::JumpRel(JumpRel {
            target_guest_pc: target,
        }));
    assert(stmts@ =~= old(stmts)@ + seq![eff(Op::JumpRel(JumpRel { target_guest_pc: target }))]);
    Ok(2)
}

#[verifier::spinoff_prover]
pub(crate) fn decode_jump_rel32(
    _prefixes: &PrefixSet,
    bytes: &[u8],
    cursor: usize,
    opcode_guest_pc: u64,
    stmts: &mut Vec<Stmt>,
) -> (res: Result<usize, DecodeError>)
    requires
        cursor < bytes.len(),
        bytes.len() <= isize::MAX,
        room(old(stmts)@),
        ssa_wf(old(stmts)@),
    ensures
        ssa_wf(final(stmts)@),
        old(stmts).len() <= final(stmts).len() <= old(stmts).len() + 0x100,
        res matches Ok(n) ==> 1 <= n <= 16,
        cursor + 5 <= bytes.len() ==> res == Ok::<usize, DecodeError>(5) && final(stmts)@ == old(stmts)@.push(Stmt { result: None, op: Op::JumpRel(JumpRel {
            target_guest_pc: spec_add_signed_disp(spec_add_signed_disp(opcode_guest_pc, 5), modrm::le32(bytes@, cursor + 1) as i32 as i64) }) }),
        cursor + 5 > bytes.len() ==> res == Err::<usize, DecodeError>(DecodeError::Truncated) && final(stmts)@ == old(stmts)@,
        lowered(jump_rel32_code(bytes@, cursor as int, opcode_guest_pc), old(stmts)@, final(stmts)@, res),
{
    let imm = modrm::read_u32(bytes, cursor + 1)? as i32 as i64;
    let target = add_signed_disp(add_signed_disp(opcode_guest_pc, 5), imm);
    emit_void(stmts, Op::JumpRel(JumpRel {
            target_guest_pc: target,
        }));
    assert(stmts@ =~= old(stmts)@ + seq![eff(Op::JumpRel(JumpRel { target_guest_pc: target }))]);
    Ok(5)
}

#[verifier::spinoff_prover]
pub(crate) fn decode_jrcxz_rel8(
    prefixes: &PrefixSet,
    bytes: &[u8],
    cursor: usize,
    opcode_guest_pc: u64,
    stmts: &mut Vec<Stmt>,
) -> (res: Result<usize, DecodeError>)
    requires
        cursor < bytes.len(),
        bytes.len() <= isize::MAX,
        room(old(stmts)@),
        ssa_wf(old(stmts)@),
    ensures
        ssa_wf(final(stmts)@),
        old(stmts).len() <= final(stmts).len() <= old(stmts).len() + 0x100,
        res matches Ok(n) ==> 1 <= n <= 16,
        lowered(jrcxz_code(*prefixes, bytes@, cursor as int, opcode_guest_pc, old(stmts).len() as int), old(stmts)@, final(stmts)@, res),
{
    let ghost s0 = stmts@;
    if prefixes.rex.present
        || prefixes.operand_override
        || prefixes.lock
        || prefixes.segment.is_some()
        || prefixes.rep.is_some()
    {
        return Err(DecodeError::UnsupportedOpcode(0xE3));
    }

    let rel = (byte_at(bytes, cursor + 1)? as i8 as i64);
    let fallthrough = add_signed_disp(opcode_guest_pc, 2);
    let target = add_signed_disp(fallthrough, rel);
    let size = if prefixes.addr_override {
        OpSize::I32
    } else {
        OpSize::I64
    };
    let rcx = emit(stmts, Op::LoadReg(LoadReg {
            reg: Gpr::Rcx,
            size,
        }));
    let zero = emit(stmts, Op::Constant(Constant { value: 0, size }));
    let flags = emit(stmts, Op::CmpFlags(CmpFlags {
            lhs: rcx,
            rhs: zero,
            size,
        }));
    emit_void(stmts, Op::CondJumpRel(CondJumpRel {
            cc: CondCode::Eq,
            target_guest_pc: target,
            fallthrough_guest_pc: fallthrough,
        }));
    proof {
        let s: int = s0.len() as int;
        assert(stmts@ =~= s0 + seq![
            def(s, op_ld_reg(Gpr::Rcx, size)),
            def(s + 1, op_const(0, size)),
            def(s + 2, Op::CmpFlags(CmpFlags { lhs: s as u32, rhs: (s + 1) as u32, size })),
            cond_jump(CondCode::Eq, fallthrough, rel),
        ]);
    }
    Ok(2)
}

#[verifier::spinoff_prover]
pub(crate) fn decode_loop_rel8(
    prefixes: &PrefixSet,
    bytes: &[u8],
    cursor: usize,
    opcode_guest_pc: u64,
    stmts: &mut Vec<Stmt>,
) -> (res: Result<usize, DecodeError>)
    requires
        cursor < bytes.len(),
        bytes.len() <= isize::MAX,
        room(old(stmts)@),
        ssa_wf(old(stmts)@),
    ensures
        ssa_wf(final(stmts)@),
        old(stmts).len() <= final(stmts).len() <= old(stmts).len() + 0x100,
        res matches Ok(n) ==> 1 <= n <= 16,
        lowered(loop_code(*prefixes, bytes@, cursor as int, opcode_guest_pc, old(stmts).len() as int), old(stmts)@, final(stmts)@, res),
{
    let ghost s0 = stmts@;
    if prefixes.rex.present
        || prefixes.operand_override
        || prefixes.lock
        || prefixes.segment.is_some()
        || prefixes.rep.is_some()
    {
        return Err(DecodeError::UnsupportedOpcode(0xE2));
    }

    let rel = (byte_at(bytes, cursor + 1)? as i8 as i64);
    let fallthrough = add_signed_disp(opcode_guest_pc, 2);
    let target = add_signed_disp(fallthrough, rel);
    let size = if prefixes.addr_override {
        OpSize::I32
    } else {
        OpSize::I64
    };

    let counter = emit(stmts, Op::LoadReg(LoadReg {
            reg: Gpr::Rcx,
            size,
        }));
    let one = emit(stmts, Op::Constant(Constant { value: 1, size }));
    let decremented = emit(stmts, Op::BinOp(BinOp {
            op: BinOpKind::Sub,
            lhs: counter,
            rhs: one,
            size,
        }));
    emit_void(stmts, Op::StoreReg(StoreReg {
            reg: Gpr::Rcx,
            value: decremented,
            size,
        }));
    let zero = emit(stmts, Op::Constant(Constant { value: 0, size }));
    let flags = emit(stmts, Op::CmpFlags(CmpFlags {
            lhs: decremented,
            rhs: zero,
            size,
        }));
    emit_void(stmts, Op::CondJumpRel(CondJumpRel {
            cc: CondCode::Ne,
            target_guest_pc: target,
            fallthrough_guest_pc: fallthrough,
        }));
    proof {
        let s: int = s0.len() as int;
        assert(stmts@ =~= s0 + seq![
            def(s, op_ld_reg(Gpr::Rcx, size)),
            def(s + 1, op_const(1, size)),
            def(s + 2, op_bin(BinOpKind::Sub, s, s + 1, size)),
            eff(op_st_reg(Gpr::Rcx, s + 2, size)),
            def(s + 4, op_const(0, size)),
            def(s + 5, Op::CmpFlags(CmpFlags { lhs: (s + 2) as u32, rhs: (s + 4) as u32, size })),
            cond_jump(CondCode::Ne, fallthrough, rel),
        ]);
    }
    Ok(2)
}

/// RET takes no REX, operand-size, lock or segment prefix.
pub open spec fn ret_prefixes_ok(p: PrefixSet) -> bool {
    !p.rex.present && !p.operand_override && !p.lock && p.segment is None
}

#[verifier::spinoff_prover]
pub(crate) fn decode_ret(
    prefixes: &PrefixSet,
    _bytes: &[u8],
    _cursor: usize,
    stmts: &mut Vec<Stmt>,
) -> (res: Result<usize, DecodeError>)
    requires
        room(old(stmts)@),
        ssa_wf(old(stmts)@),
    ensures
        ssa_wf(final(stmts)@),
        old(stmts).len() <= final(stmts).len() <= old(stmts).len() + 0x100,
        res matches Ok(n) ==> 1 <= n <= 16,
        ret_prefixes_ok(*prefixes) ==> res == Ok::<usize, DecodeError>(1)
            && final(stmts)@ == old(stmts)@.push(Stmt { result: None, op: Op::Return(Return) }),
        !ret_prefixes_ok(*prefixes) ==> res == Err::<usize, DecodeError>(DecodeError::UnsupportedOpcode(0xC3)),
        lowered(ret_code(*prefixes), old(stmts)@, final(stmts)@, res),
{
    if prefixes.rex.present
        || prefixes.operand_override
        || prefixes.lock
        || prefixes.segment.is_some()
    {
        return Err(DecodeError::UnsupportedOpcode(0xC3));
    }
    emit_void(stmts, Op::Return(Return));
    assert(stmts@ =~= old(stmts)@ + seq![eff(Op::Return(Return))]);
    Ok(1)
}

#[verifier::spinoff_prover]
pub(crate) fn decode_ret_imm16(
    prefixes: &PrefixSet,
    bytes: &[u8],
    cursor: usize,
    stmts: &mut Vec<Stmt>,
) -> (res: Result<usize, DecodeError>)
    requires
        cursor < bytes.len(),
        bytes.len() <= isize::MAX,
        room(old(stmts)@),
        ssa_wf(old(stmts)@),
    ensures
        ssa_wf(final(stmts)@),
        old(stmts).len() <= final(stmts).len() <= old(stmts).len() + 0x100,
        res matches Ok(n) ==> 1 <= n <= 16,
        lowered(ret_imm16_code(*prefixes, bytes@, cursor as int), old(stmts)@, final(stmts)@, res),
{
    let ghost s0 = stmts@;
    if prefixes.rex.present
        || prefixes.operand_override
        || prefixes.lock
        || prefixes.segment.is_some()
    {
        return Err(DecodeError::UnsupportedOpcode(0xC2));
    }
    let imm = read_imm(bytes, cursor + 1, 2)?;
    let pop_bytes = imm + 8;
    emit_void(stmts, Op::RetAdjusted(RetAdjusted { pop_bytes }));
    proof {
        assert(stmts@ =~= s0 + seq![eff(Op::RetAdjusted(RetAdjusted { pop_bytes: (le_value(bytes@, cursor + 1, 2) + 8) as u64 }))]);
    }
    Ok(3)
}

#[verifier::spinoff_prover]
pub(crate) fn decode_leave(prefixes: &PrefixSet, stmts: &mut Vec<Stmt>) -> (res: Result<usize, DecodeError>)
    requires
        room(old(stmts)@),
        ssa_wf(old(stmts)@),
    ensures
        ssa_wf(final(stmts)@),
        old(stmts).len() <= final(stmts).len() <= old(stmts).len() + 0x100,
        res matches Ok(n) ==> 1 <= n <= 16,
        lowered(leave_code(*prefixes, old(stmts).len() as int), old(stmts)@, final(stmts)@, res),
{
    let ghost s0 = stmts@;
    if prefixes.rex.present
        || prefixes.operand_override
        || prefixes.lock
        || prefixes.segment.is_some()
    {
        return Err(DecodeError::UnsupportedOpcode(0xC9));
    }

    let rbp = emit(stmts, Op::LoadReg(LoadReg {
            reg: Gpr::Rbp,
            size: OpSize::I64,
        }));
    emit_void(stmts, Op::StoreReg(StoreReg {
            reg: Gpr::Rsp,
            value: rbp,
            size: OpSize::I64,
        }));
    let rsp = emit(stmts, Op::LoadReg(LoadReg {
            reg: Gpr::Rsp,
            size: OpSize::I64,
        }));
    let value = emit(stmts, Op::LoadMem(LoadMem {
            addr: rsp,
            size: OpSize::I64,
        }));
    emit_void(stmts, Op::StoreReg(StoreReg {
            reg: Gpr::Rbp,
            value,
            size: OpSize::I64,
        }));
    emit_void(stmts, Op::RspAdjust(RspAdjust { delta_bytes: 8 }));
    proof {
        let s: int = s0.len() as int;
        assert(stmts@ =~= s0 + seq![
            def(s, op_ld_reg(Gpr::Rbp, OpSize::I64)),
            eff(op_st_reg(Gpr::Rsp, s, OpSize::I64)),
            def(s + 2, op_ld_reg(Gpr::Rsp, OpSize::I64)),
            def(s + 3, op_ld_mem(s + 2, OpSize::I64)),
            eff(op_st_reg(Gpr::Rbp, s + 3, OpSize::I64)),
            eff(Op::RspAdjust(RspAdjust { delta_bytes: 8i64 })),
        ]);
    }
    Ok(1)
}

#[verifier::spinoff_prover]
pub(crate) fn decode_enter(
    prefixes: &PrefixSet,
    bytes: &[u8],
    cursor: usize,
    stmts: &mut Vec<Stmt>,
) -> (res: Result<usize, DecodeError>)
    requires
        cursor < bytes.len(),
        bytes.len() <= isize::MAX,
        room(old(stmts)@),
        ssa_wf(old(stmts)@),
    ensures
        ssa_wf(final(stmts)@),
        old(stmts).len() <= final(stmts).len() <= old(stmts).len() + 0x100,
        res matches Ok(n) ==> 1 <= n <= 16,
        lowered(enter_code(*prefixes, bytes@, cursor as int, old(stmts).len() as int), old(stmts)@, final(stmts)@, res),
{
    let ghost s0 = stmts@;
    if prefixes.rex.present
        || prefixes.operand_override
        || prefixes.addr_override
        || prefixes.lock
        || prefixes.segment.is_some()
        || prefixes.rep.is_some()
    {
        return Err(DecodeError::UnsupportedOpcode(0xC8));
    }

    let alloc_size = read_imm(bytes, cursor + 1, 2)?;
    let nesting = byte_at(bytes, cursor + 3)?;
    if nesting != 0 {
        return Err(DecodeError::UnsupportedOpcode(0xC8));
    }

    let rbp = emit(stmts, Op::LoadReg(LoadReg {
            reg: Gpr::Rbp,
            size: OpSize::I64,
        }));
    emit_void(stmts, Op::RspAdjust(RspAdjust { delta_bytes: -8 }));
    let rsp_after_push = emit(stmts, Op::LoadReg(LoadReg {
            reg: Gpr::Rsp,
            size: OpSize::I64,
        }));
    emit_void(stmts, Op::StoreMem(StoreMem {
            addr: rsp_after_push,
            value: rbp,
            size: OpSize::I64,
        }));
    emit_void(stmts, Op::StoreReg(StoreReg {
            reg: Gpr::Rbp,
            value: rsp_after_push,
            size: OpSize::I64,
        }));
    if alloc_size != 0 {
        emit_void(stmts, Op::RspAdjust(RspAdjust {
                delta_bytes: -(alloc_size as i64),
            }));
    }
    proof {
        let s: int = s0.len() as int;
        let frame = seq![def(s, op_ld_reg(Gpr::Rbp, OpSize::I64))] + push_code(s, s + 1)
            + seq![eff(op_st_reg(Gpr::Rbp, s + 2, OpSize::I64))];
        if alloc_size != 0 {
            assert(stmts@ =~= s0 + (frame + seq![eff(Op::RspAdjust(RspAdjust { delta_bytes: (-alloc_size) as i64 }))]));
        } else {
            assert(stmts@ =~= s0 + frame);
        }
    }
    Ok(4)
}

#[verifier::spinoff_prover]
pub(crate) fn decode_push_r(prefixes: &PrefixSet, opcode: u8, stmts: &mut Vec<Stmt>) -> (res: usize)
    requires
        room(old(stmts)@),
        ssa_wf(old(stmts)@),
    ensures
        ssa_wf(final(stmts)@),
        old(stmts).len() <= final(stmts).len() <= old(stmts).len() + 0x100,
        1 <= res <= 16,
        res == 1 && final(stmts)@ == old(stmts)@ + push_r_code(*prefixes, opcode, old(stmts).len() as int),
{
    let reg_idx = opcode & 0x7;
    let reg = map_reg_raw(reg_idx, &prefixes.rex);
    let val = emit(stmts, Op::LoadReg(LoadReg {
            reg,
            size: OpSize::I64,
        }));
    // RSP adjustment via RspAdjust
    emit_void(stmts, Op::RspAdjust(RspAdjust { delta_bytes: -8 }));
    let rsp = emit(stmts, Op::LoadReg(LoadReg {
            reg: Gpr::Rsp,
            size: OpSize::I64,
        }));
    emit_void(stmts, Op::StoreMem(StoreMem {
            addr: rsp,
            value: val,
            size: OpSize::I64,
        }));
    1
}

#[verifier::spinoff_prover]
pub(crate) fn decode_push_imm(
    prefixes: &PrefixSet,
    opcode: u8,
    bytes: &[u8],
    cursor: usize,
    stmts: &mut Vec<Stmt>,
) -> (res: Result<usize, DecodeError>)
    requires
        cursor < bytes.len(),
        bytes.len() <= isize::MAX,
        room(old(stmts)@),
        ssa_wf(old(stmts)@),
    ensures
        ssa_wf(final(stmts)@),
        old(stmts).len() <= final(stmts).len() <= old(stmts).len() + 0x100,
        res matches Ok(n) ==> 1 <= n <= 16,
        lowered(push_imm_code(*prefixes, opcode, bytes@, cursor as int, old(stmts).len() as int), old(stmts)@, final(stmts)@, res),
{
    let ghost s0 = stmts@;
    if prefixes.rex.present || prefixes.lock || prefixes.segment.is_some() {
        return Err(DecodeError::UnsupportedOpcode(opcode));
    }

    let (imm, consumed) = if opcode == 0x6A {
        let imm = byte_at(bytes, cursor + 1)? as i8 as i64 as u64;
        (imm, 2)
    } else {
        let imm_bytes = if prefixes.operand_override { 2 } else { 4 };
        let mut imm = read_imm(bytes, cursor + 1, imm_bytes)?;
        if imm_bytes == 4 {
            imm = (imm as i32 as i64 as u64);
        }
        (imm, 1 + imm_bytes)
    };

    let val = emit(stmts, Op::Constant(Constant {
            value: imm,
            size: OpSize::I64,
        }));
    emit_void(stmts, Op::RspAdjust(RspAdjust { delta_bytes: -8 }));
    let rsp = emit(stmts, Op::LoadReg(LoadReg {
            reg: Gpr::Rsp,
            size: OpSize::I64,
        }));
    emit_void(stmts, Op::StoreMem(StoreMem {
            addr: rsp,
            value: val,
            size: OpSize::I64,
        }));
    proof {
        let s: int = s0.len() as int;
        assert(stmts@ =~= s0 + (seq![def(s, op_const(imm, OpSize::I64))] + push_code(s, s + 1)));
    }
    Ok(consumed)
}

#[verifier::spinoff_prover]
pub(crate) fn decode_pop_r(prefixes: &PrefixSet, opcode: u8, stmts: &mut Vec<Stmt>) -> (res: usize)
    requires
        room(old(stmts)@),
        ssa_wf(old(stmts)@),
    ensures
        ssa_wf(final(stmts)@),
        old(stmts).len() <= final(stmts).len() <= old(stmts).len() + 0x100,
        1 <= res <= 16,
        res == 1 && final(stmts)@ == old(stmts)@ + pop_r_code(*prefixes, opcode, old(stmts).len() as int),
{
    let reg_idx = opcode & 0x7;
    let reg = map_reg_raw(reg_idx, &prefixes.rex);
    let rsp = emit(stmts, Op::LoadReg(LoadReg {
            reg: Gpr::Rsp,
            size: OpSize::I64,
        }));
    let val = emit(stmts, Op::LoadMem(LoadMem {
            addr: rsp,
            size: OpSize::I64,
        }));
    emit_void(stmts, Op::StoreReg(StoreReg {
            reg,
            value: val,
            size: OpSize::I64,
        }));
    emit_void(stmts, Op::RspAdjust(RspAdjust { delta_bytes: 8 }));
    1
}

#[verifier::spinoff_prover]
pub(crate) fn decode_pop_rm(
    prefixes: &PrefixSet,
    bytes: &[u8],
    cursor: usize,
    stmts: &mut Vec<Stmt>,
) -> (res: Result<usize, DecodeError>)
    requires
        cursor < bytes.len(),
        bytes.len() <= isize::MAX,
        room(old(stmts)@),
        ssa_wf(old(stmts)@),
    ensures
        ssa_wf(final(stmts)@),
        old(stmts).len() <= final(stmts).len() <= old(stmts).len() + 0x100,
        res matches Ok(n) ==> 1 <= n <= 16,
        lowered(pop_rm_code(*prefixes, bytes@, cursor as int, old(stmts).len() as int), old(stmts)@, final(stmts)@, res),
{
    let (modrm, _after) = modrm::parse_modrm(bytes, cursor + 1)?;
    if modrm.reg != 0 {
        return Err(DecodeError::UnsupportedOpcode(0x8F));
    }

    let ghost s0 = stmts@;
    let rsp = emit(stmts, Op::LoadReg(LoadReg {
            reg: Gpr::Rsp,
            size: OpSize::I64,
        }));
    let value = emit(stmts, Op::LoadMem(LoadMem {
            addr: rsp,
            size: OpSize::I64,
        }));
    let ghost s1 = stmts@;
    let used = emit_rm_write(prefixes, modrm, bytes, cursor + 1, OpSize::I64, value, stmts)?;
    let ghost s2 = stmts@;
    emit_void(stmts, Op::RspAdjust(RspAdjust { delta_bytes: 8 }));
    proof {
        let w = rm_write_code(*prefixes, modrm, bytes@, cursor + 1, OpSize::I64, s0.len() + 1int, s0.len() + 2int);
        assert(s1 =~= s0 + seq![def(s0.len() as int, op_ld_reg(Gpr::Rsp, OpSize::I64)), def(s0.len() + 1int, op_ld_mem(s0.len() as int, OpSize::I64))]);
        assert(stmts@ =~= s0 + (seq![def(s0.len() as int, op_ld_reg(Gpr::Rsp, OpSize::I64)), def(s0.len() + 1int, op_ld_mem(s0.len() as int, OpSize::I64))] + w
            + seq![eff(Op::RspAdjust(RspAdjust { delta_bytes: 8i64 }))]));
    }
    Ok(1 + used)
}

} // verus!
