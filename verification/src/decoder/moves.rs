//! Moves, exchanges and extensions.

use vstd::prelude::*;

use crate::decoder::emit::{
    addr_code, byte_at, bytes_for_modrm, def, eff, emit, emit_addr_with_size, emit_rm_load, emit_void, le_value, map_reg,
    map_reg_raw, mem_operand, modrm_bytes, op_bin, op_const, op_ld_reg, op_st_mem, op_st_reg, read_imm, reg_reg, rm_insn_len,
    rm_load, rm_ok, rm_reg, rm_store, rm_used, rm_write_code, emit_rm_store, emit_rm_write, op_ld_mem, room, ssa_wf,
};
use crate::decoder::groups::lowered;
use crate::decoder::modrm;
use crate::decoder::prefixes::{PrefixSet, operand_size, spec_operand_size};
use crate::decoder::flow::{jcc_condition, spec_jcc_condition};
use crate::decoder::DecodeError;
use crate::ir::{Ref, AluFlags, BinOp, BinOpKind, CmpFlags, Constant, Extend, Gpr, LoadMem, LoadReg, Op, OpSize, Select, Stmt, StoreMem, StoreReg, Trap, TrapKind};

verus! {

/// MOV r/m, reg at `cursor` when the list holds `s` statements: the
/// register read and written to the r/m operand.
pub open spec fn mov_rm_r_code(p: PrefixSet, b: Seq<u8>, cursor: int, size: OpSize, s: int) -> Result<(Seq<Stmt>, int), DecodeError> {
    let mc = cursor + 1;
    if mc >= b.len() {
        Err(DecodeError::Truncated)
    } else {
        let m = modrm::modrm_of(b[mc]);
        if !rm_ok(m, p, b, mc) {
            Err(mem_operand(m, p, b, mc)->Err_0)
        } else {
            Ok((seq![def(s, op_ld_reg(reg_reg(m, p), size))] + rm_write_code(p, m, b, mc, size, s, s + 1), rm_insn_len(m, b, mc)))
        }
    }
}

/// MOV reg, r/m at `cursor` when the list holds `s` statements: the r/m
/// operand read and written to the register.
pub open spec fn mov_r_rm_code(p: PrefixSet, b: Seq<u8>, cursor: int, size: OpSize, s: int) -> Result<(Seq<Stmt>, int), DecodeError> {
    let mc = cursor + 1;
    if mc >= b.len() {
        Err(DecodeError::Truncated)
    } else {
        let m = modrm::modrm_of(b[mc]);
        if !rm_ok(m, p, b, mc) {
            Err(mem_operand(m, p, b, mc)->Err_0)
        } else {
            let r = rm_load(m, p, b, mc, 0, size, s);
            Ok((r.0 + seq![eff(op_st_reg(reg_reg(m, p), r.1, size))], rm_insn_len(m, b, mc)))
        }
    }
}

/// LEA at `cursor` when the list holds `s` statements: the address of the
/// memory operand written to the register (64 bits with REX.W, else 32).
/// Refused with any legacy prefix or a register operand.
pub open spec fn lea_code(p: PrefixSet, b: Seq<u8>, cursor: int, s: int) -> Result<(Seq<Stmt>, int), DecodeError> {
    let mc = cursor + 1;
    if p.rep is Some || p.lock || p.segment is Some || p.operand_override || p.addr_override {
        Err(DecodeError::UnsupportedOpcode(0x8D))
    } else if mc >= b.len() {
        Err(DecodeError::Truncated)
    } else {
        let m = modrm::modrm_of(b[mc]);
        if m.mod_ == 3 {
            Err(DecodeError::UnsupportedOpcode(0x8D))
        } else {
            match mem_operand(m, p, b, mc) {
                Err(e) => Err(e),
                Ok(a) => {
                    let c = addr_code(a, 0, s);
                    let size = if p.rex.w { OpSize::I64 } else { OpSize::I32 };
                    Ok((c.0 + seq![eff(op_st_reg(reg_reg(m, p), c.1, size))], 1 + modrm_bytes(m, b, mc)))
                },
            }
        }
    }
}

/// The bytes of an operand of `size`.
pub open spec fn size_bytes(size: OpSize) -> int {
    size.spec_bit_width() as int / 8
}

/// MOV reg, imm (B8+r) at `cursor` when the list holds `s` statements: an
/// immediate of the operand size stored to the register the opcode names.
pub open spec fn mov_ri_code(p: PrefixSet, opcode: u8, b: Seq<u8>, cursor: int, s: int) -> Result<(Seq<Stmt>, int), DecodeError> {
    let size = spec_operand_size(p);
    let n = size_bytes(size);
    if cursor + 1 + n > b.len() {
        Err(DecodeError::Truncated)
    } else {
        let imm = le_value(b, cursor + 1, n as nat) as u64;
        let reg = modrm::ext_reg(opcode & 0x7, p.rex.b);
        Ok((seq![def(s, op_const(imm, size)), eff(op_st_reg(reg, s, size))], 1 + n))
    }
}

/// MOV r8, imm8 (B0+r) at `cursor` when the list holds `s` statements.
pub open spec fn mov_r8_i8_code(p: PrefixSet, opcode: u8, b: Seq<u8>, cursor: int, s: int) -> Result<(Seq<Stmt>, int), DecodeError> {
    if cursor + 1 >= b.len() {
        Err(DecodeError::Truncated)
    } else {
        let reg = modrm::ext_reg(opcode & 0x7, p.rex.b);
        Ok((seq![def(s, op_const(b[cursor + 1] as u64, OpSize::I8)), eff(op_st_reg(reg, s, OpSize::I8))], 2))
    }
}

/// MOV r/m, imm (C6/C7 /0) at `cursor` when the list holds `s` statements:
/// the immediate as a constant written to the r/m operand. Refused with a
/// REP, LOCK or segment prefix or another reg field.
pub open spec fn mov_rm_imm_code(p: PrefixSet, opcode: u8, b: Seq<u8>, cursor: int, s: int) -> Result<(Seq<Stmt>, int), DecodeError> {
    let size = if opcode == 0xC6 { OpSize::I8 } else { spec_operand_size(p) };
    let mc = cursor + 1;
    if p.rep is Some || p.lock || p.segment is Some {
        Err(DecodeError::UnsupportedOpcode(opcode))
    } else if mc >= b.len() {
        Err(DecodeError::Truncated)
    } else {
        let m = modrm::modrm_of(b[mc]);
        if m.reg != 0 {
            Err(DecodeError::UnsupportedOpcode(opcode))
        } else if m.rm == 4 && mc + 1 >= b.len() {
            Err(DecodeError::Truncated)
        } else if !(opcode == 0xC6 || opcode == 0xC7) || (opcode == 0xC7 && size == OpSize::I8) {
            Err(DecodeError::UnsupportedOpcode(opcode))
        } else {
            let mb = modrm_bytes(m, b, mc);
            let imm_bytes: int = if opcode == 0xC6 { 1 } else if size == OpSize::I16 { 2 } else { 4 };
            let off = mc + mb;
            if off + imm_bytes > b.len() {
                Err(DecodeError::Truncated)
            } else if !rm_ok(m, p, b, mc) {
                Err(mem_operand(m, p, b, mc)->Err_0)
            } else {
                let raw = le_value(b, off, imm_bytes as nat) as u64;
                let imm = if opcode == 0xC7 && size == OpSize::I64 { raw as i32 as i64 as u64 } else { raw };
                Ok((seq![def(s, op_const(imm, size))] + rm_write_code(p, m, b, mc, size, s, s + 1), 1 + mb + imm_bytes))
            }
        }
    }
}

/// The r/m operand of the ModR/M byte after `cursor` read at `from` and
/// extended (`signed` or zero) to `to`, written to the reg operand, when the
/// list holds `s` statements.
pub open spec fn extend_code(p: PrefixSet, b: Seq<u8>, cursor: int, from: OpSize, to: OpSize, signed: bool, s: int) -> Result<(Seq<Stmt>, int), DecodeError> {
    let mc = cursor + 1;
    if mc >= b.len() {
        Err(DecodeError::Truncated)
    } else {
        let m = modrm::modrm_of(b[mc]);
        if !rm_ok(m, p, b, mc) {
            Err(mem_operand(m, p, b, mc)->Err_0)
        } else {
            let r = rm_load(m, p, b, mc, 0, from, s);
            let k = s + r.0.len();
            Ok((r.0 + seq![
                def(k, Op::Extend(Extend { value: r.1 as u32, from_size: from, to_size: to, is_signed: signed })),
                eff(op_st_reg(reg_reg(m, p), k, to)),
            ], rm_insn_len(m, b, mc)))
        }
    }
}

/// MOVSXD (63) at `cursor` when the list holds `s` statements: the 32-bit
/// operand sign-extended to 64 bits under REX.W, else copied. With an
/// operand-size prefix (and no other prefix) it is an invalid-opcode trap
/// spanning the ModR/M operand.
pub open spec fn movsxd_code(p: PrefixSet, b: Seq<u8>, cursor: int, s: int) -> Result<(Seq<Stmt>, int), DecodeError> {
    let mc = cursor + 1;
    if p.operand_override {
        if p.rep is Some || p.lock || p.segment is Some || p.addr_override || p.rex.present {
            Err(DecodeError::UnsupportedOpcode(0x63))
        } else if mc >= b.len() {
            Err(DecodeError::Truncated)
        } else {
            let m = modrm::modrm_of(b[mc]);
            if m.rm == 4 && mc + 1 >= b.len() {
                Err(DecodeError::Truncated)
            } else {
                Ok((seq![eff(Op::Trap(Trap { kind: TrapKind::Sigill }))], 1 + modrm_bytes(m, b, mc)))
            }
        }
    } else if p.rep is Some || p.lock || p.segment is Some || p.addr_override {
        Err(DecodeError::UnsupportedOpcode(0x63))
    } else if p.rex.w {
        extend_code(p, b, cursor, OpSize::I32, OpSize::I64, true, s)
    } else if mc >= b.len() {
        Err(DecodeError::Truncated)
    } else {
        let m = modrm::modrm_of(b[mc]);
        if !rm_ok(m, p, b, mc) {
            Err(mem_operand(m, p, b, mc)->Err_0)
        } else {
            let r = rm_load(m, p, b, mc, 0, OpSize::I32, s);
            Ok((r.0 + seq![eff(op_st_reg(reg_reg(m, p), r.1, OpSize::I32))], rm_insn_len(m, b, mc)))
        }
    }
}

/// The operation an accumulator-immediate opcode selects (ADC and SBB as
/// ADD and SUB); `None` for CMP, TEST and the rest.
pub open spec fn acc_kind(opcode: u8) -> Option<BinOpKind> {
    if opcode == 0x04 || opcode == 0x05 || opcode == 0x14 || opcode == 0x15 {
        Some(BinOpKind::Add)
    } else if opcode == 0x0C || opcode == 0x0D {
        Some(BinOpKind::Or)
    } else if opcode == 0x1C || opcode == 0x1D || opcode == 0x2C || opcode == 0x2D {
        Some(BinOpKind::Sub)
    } else if opcode == 0x24 || opcode == 0x25 {
        Some(BinOpKind::And)
    } else if opcode == 0x34 || opcode == 0x35 {
        Some(BinOpKind::Xor)
    } else {
        None
    }
}

/// Whether an accumulator-immediate opcode works on AL with an 8-bit
/// immediate.
pub open spec fn acc_is_byte(opcode: u8) -> bool {
    opcode == 0x04 || opcode == 0x0C || opcode == 0x14 || opcode == 0x1C || opcode == 0x24 || opcode == 0x2C
        || opcode == 0x34 || opcode == 0x3C || opcode == 0xA8
}

/// An accumulator-immediate instruction (ALU op, CMP 3C/3D or TEST A8/A9)
/// at `cursor` when the list holds `s` statements: the accumulator and the
/// immediate (sign-extended for 64 bits), then the flags or the result
/// written back. Refused with a REP, LOCK or segment prefix.
pub open spec fn acc_imm_code(p: PrefixSet, opcode: u8, b: Seq<u8>, cursor: int, s: int) -> Result<(Seq<Stmt>, int), DecodeError> {
    let is_byte = acc_is_byte(opcode);
    let size = if is_byte { OpSize::I8 } else { spec_operand_size(p) };
    let n: int = if is_byte { 1 } else if size == OpSize::I16 { 2 } else { 4 };
    if p.rep is Some || p.lock || p.segment is Some {
        Err(DecodeError::UnsupportedOpcode(opcode))
    } else if cursor + 1 + n > b.len() {
        Err(DecodeError::Truncated)
    } else {
        let raw = le_value(b, cursor + 1, n as nat) as u64;
        let imm = if !is_byte && size == OpSize::I64 { raw as i32 as i64 as u64 } else { raw };
        let operands = seq![def(s, op_ld_reg(Gpr::Rax, size)), def(s + 1, op_const(imm, size))];
        if opcode == 0x3C || opcode == 0x3D {
            Ok((operands + seq![def(s + 2, Op::CmpFlags(CmpFlags { lhs: s as u32, rhs: (s + 1) as u32, size }))], 1 + n))
        } else if opcode == 0xA8 || opcode == 0xA9 {
            Ok((operands + seq![eff(Op::AluFlags(AluFlags { op: BinOpKind::And, lhs: s as u32, rhs: (s + 1) as u32, size }))], 1 + n))
        } else {
            match acc_kind(opcode) {
                None => Err(DecodeError::UnsupportedOpcode(opcode)),
                Some(k) => Ok((operands + seq![def(s + 2, op_bin(k, s, s + 1, size)), eff(op_st_reg(Gpr::Rax, s + 2, size))], 1 + n)),
            }
        }
    }
}

/// Read the r/m operand of the ModR/M byte at `mc` at `from`, extend it to
/// `to` and write it to the reg operand.
#[verifier::spinoff_prover]
fn emit_extend(
    prefixes: &PrefixSet,
    modrm: modrm::ModRm,
    bytes: &[u8],
    mc: usize,
    from: OpSize,
    to: OpSize,
    signed: bool,
    stmts: &mut Vec<Stmt>,
) -> (res: Result<usize, DecodeError>)
    requires
        mc < bytes.len(),
        bytes.len() <= isize::MAX,
        room(old(stmts)@),
        ssa_wf(old(stmts)@),
        modrm == modrm::modrm_of(bytes@[mc as int]),
    ensures
        ssa_wf(final(stmts)@),
        old(stmts).len() <= final(stmts).len() <= old(stmts).len() + 0x100,
        res matches Ok(n) ==> 1 <= n <= 16,
        lowered(extend_code(*prefixes, bytes@, mc - 1, from, to, signed, old(stmts).len() as int), old(stmts)@, final(stmts)@, res),
{
    let dst_reg = map_reg(modrm.reg, &prefixes.rex, true);
    let ghost s0 = stmts@;
    let (src, _addr, used) = emit_rm_load(modrm, prefixes, bytes, mc, 0, from, stmts)?;
    let extended = emit(stmts, Op::Extend(Extend {
            value: src,
            from_size: from,
            to_size: to,
            is_signed: signed,
        }));
    emit_void(stmts, Op::StoreReg(StoreReg {
            reg: dst_reg,
            value: extended,
            size: to,
        }));
    proof {
        let r = rm_load(modrm, *prefixes, bytes@, mc as int, 0, from, s0.len() as int);
        let k: int = s0.len() as int + r.0.len();
        assert(stmts@ =~= s0 + (r.0 + seq![
            def(k, Op::Extend(Extend { value: r.1 as u32, from_size: from, to_size: to, is_signed: signed })),
            eff(op_st_reg(reg_reg(modrm, *prefixes), k, to)),
        ]));
    }
    Ok(1 + used)
}

/// MOV between the accumulator and an absolute address (A0..A3) at
/// `cursor` when the list holds `s` statements: the address (four bytes
/// under an address-size prefix, else eight) as a constant, then a load into
/// RAX (A0/A1) or a store of RAX (A2/A3). Refused with LOCK or REP.
pub open spec fn mov_moffs_code(p: PrefixSet, opcode: u8, b: Seq<u8>, cursor: int, s: int) -> Result<(Seq<Stmt>, int), DecodeError> {
    let n: int = if p.addr_override { 4 } else { 8 };
    if p.lock || p.rep is Some || !(opcode == 0xA0 || opcode == 0xA1 || opcode == 0xA2 || opcode == 0xA3) {
        Err(DecodeError::UnsupportedOpcode(opcode))
    } else if cursor + 1 + n > b.len() {
        Err(DecodeError::Truncated)
    } else {
        let size = if opcode == 0xA0 || opcode == 0xA2 { OpSize::I8 } else { spec_operand_size(p) };
        let addr = def(s, op_const(le_value(b, cursor + 1, n as nat) as u64, OpSize::I64));
        if opcode == 0xA0 || opcode == 0xA1 {
            Ok((seq![addr, def(s + 1, op_ld_mem(s, size)), eff(op_st_reg(Gpr::Rax, s + 1, size))], 1 + n))
        } else {
            Ok((seq![addr, def(s + 1, op_ld_reg(Gpr::Rax, size)), eff(op_st_mem(s, s + 1, size))], 1 + n))
        }
    }
}

/// CMOVcc (0F 40..4F, `cursor` after the 0F) when the list holds `s`
/// statements: the register and the r/m operand read, and the one the
/// condition picks (the r/m value when it holds) written to the register.
pub open spec fn cmov_code(p: PrefixSet, opcode: u8, b: Seq<u8>, cursor: int, s: int) -> Result<(Seq<Stmt>, int), DecodeError> {
    let size = spec_operand_size(p);
    let mc = cursor + 1;
    if p.rep is Some || p.lock || p.segment is Some {
        Err(DecodeError::UnsupportedOpcode(opcode))
    } else {
        match spec_jcc_condition(opcode) {
            None => Err(DecodeError::UnsupportedOpcode(opcode)),
            Some(cc) => if mc >= b.len() {
                Err(DecodeError::Truncated)
            } else {
                let m = modrm::modrm_of(b[mc]);
                if !rm_ok(m, p, b, mc) {
                    Err(mem_operand(m, p, b, mc)->Err_0)
                } else {
                    let r = rm_load(m, p, b, mc, 0, size, s + 1);
                    let k = s + 1 + r.0.len();
                    Ok((seq![def(s, op_ld_reg(reg_reg(m, p), size))] + r.0 + seq![
                        def(k, Op::Select(Select { cc, true_value: r.1 as u32, false_value: s as u32, size })),
                        eff(op_st_reg(reg_reg(m, p), k, size)),
                    ], rm_insn_len(m, b, mc)))
                }
            },
        }
    }
}

/// SETcc (0F 90..9F, `cursor` after the 0F) when the list holds `s`
/// statements: one or zero by the condition, written as a byte to the r/m
/// operand.
pub open spec fn setcc_code(p: PrefixSet, opcode: u8, b: Seq<u8>, cursor: int, s: int) -> Result<(Seq<Stmt>, int), DecodeError> {
    let mc = cursor + 1;
    if p.rep is Some || p.lock || p.segment is Some {
        Err(DecodeError::UnsupportedOpcode(opcode))
    } else {
        match spec_jcc_condition(opcode) {
            None => Err(DecodeError::UnsupportedOpcode(opcode)),
            Some(cc) => if mc >= b.len() {
                Err(DecodeError::Truncated)
            } else {
                let m = modrm::modrm_of(b[mc]);
                if !rm_ok(m, p, b, mc) {
                    Err(mem_operand(m, p, b, mc)->Err_0)
                } else {
                    Ok((seq![
                        def(s, op_const(1, OpSize::I8)),
                        def(s + 1, op_const(0, OpSize::I8)),
                        def(s + 2, Op::Select(Select { cc, true_value: s as u32, false_value: (s + 1) as u32, size: OpSize::I8 })),
                    ] + rm_write_code(p, m, b, mc, OpSize::I8, s + 2, s + 3), rm_insn_len(m, b, mc)))
                }
            },
        }
    }
}

/// XCHG r/m, reg (86/87) at `cursor` when the list holds `s` statements:
/// both read, then the r/m value written to the register and the register
/// value to the r/m operand.
pub open spec fn xchg_code(p: PrefixSet, opcode: u8, b: Seq<u8>, cursor: int, s: int) -> Result<(Seq<Stmt>, int), DecodeError> {
    let size = if opcode == 0x86 { OpSize::I8 } else { spec_operand_size(p) };
    let mc = cursor + 1;
    if mc >= b.len() {
        Err(DecodeError::Truncated)
    } else {
        let m = modrm::modrm_of(b[mc]);
        if !rm_ok(m, p, b, mc) {
            Err(mem_operand(m, p, b, mc)->Err_0)
        } else {
            let r = rm_load(m, p, b, mc, 0, size, s + 1);
            Ok((seq![def(s, op_ld_reg(reg_reg(m, p), size))] + r.0 + seq![
                eff(op_st_reg(reg_reg(m, p), r.1, size)),
                rm_store(m, p, size, r.2, s),
            ], rm_insn_len(m, b, mc)))
        }
    }
}

/// XCHG rAX, r (90+r) when the list holds `s` statements.
pub open spec fn xchg_acc_code(p: PrefixSet, opcode: u8, s: int) -> Seq<Stmt> {
    let size = spec_operand_size(p);
    let other = modrm::ext_reg(opcode & 0x7, p.rex.b);
    seq![
        def(s, op_ld_reg(Gpr::Rax, size)),
        def(s + 1, op_ld_reg(other, size)),
        eff(op_st_reg(Gpr::Rax, s + 1, size)),
        eff(op_st_reg(other, s, size)),
    ]
}

/// XLAT (D7) when the list holds `s` statements: AL := [RBX + AL].
/// Refused with an address-size, LOCK, segment or REP prefix.
pub open spec fn xlat_code(p: PrefixSet, s: int) -> Result<(Seq<Stmt>, int), DecodeError> {
    if p.addr_override || p.lock || p.segment is Some || p.rep is Some {
        Err(DecodeError::UnsupportedOpcode(0xD7))
    } else {
        Ok((seq![
            def(s, op_ld_reg(Gpr::Rax, OpSize::I8)),
            def(s + 1, Op::Extend(Extend { value: s as u32, from_size: OpSize::I8, to_size: OpSize::I64, is_signed: false })),
            def(s + 2, op_ld_reg(Gpr::Rbx, OpSize::I64)),
            def(s + 3, op_bin(BinOpKind::Add, s + 2, s + 1, OpSize::I64)),
            def(s + 4, op_ld_mem(s + 3, OpSize::I8)),
            eff(op_st_reg(Gpr::Rax, s + 4, OpSize::I8)),
        ], 1))
    }
}

/// CBW/CWDE/CDQE (98) when the list holds `s` statements: the low half of
/// the accumulator sign-extended into all of it (AL to AX under an
/// operand-size prefix, EAX to RAX under REX.W, else AX to EAX).
pub open spec fn sign_extend_acc_code(p: PrefixSet, s: int) -> Seq<Stmt> {
    let (from, to) = if p.rex.w {
        (OpSize::I32, OpSize::I64)
    } else if p.operand_override {
        (OpSize::I8, OpSize::I16)
    } else {
        (OpSize::I16, OpSize::I32)
    };
    seq![
        def(s, op_ld_reg(Gpr::Rax, from)),
        def(s + 1, Op::Extend(Extend { value: s as u32, from_size: from, to_size: to, is_signed: true })),
        eff(op_st_reg(Gpr::Rax, s + 1, to)),
    ]
}

/// CWD/CDQ/CQO (99) when the list holds `s` statements: RDX (at the operand
/// size) takes the accumulator shifted arithmetically right by its width
/// less one.
pub open spec fn sign_extend_acc_to_dx_code(p: PrefixSet, s: int) -> Seq<Stmt> {
    let size = if p.rex.w { OpSize::I64 } else if p.operand_override { OpSize::I16 } else { OpSize::I32 };
    seq![
        def(s, op_ld_reg(Gpr::Rax, size)),
        def(s + 1, op_const((size.spec_bit_width() - 1) as u64, size)),
        def(s + 2, op_bin(BinOpKind::Sar, s, s + 1, size)),
        eff(op_st_reg(Gpr::Rdx, s + 2, size)),
    ]
}

/// MOVNTI (0F C3, `cursor` after the 0F; memory operand only) when the list
/// holds `s` statements: the register stored to memory. Refused with a REP,
/// LOCK or segment prefix.
pub open spec fn movnti_code(p: PrefixSet, opcode: u8, b: Seq<u8>, cursor: int, s: int) -> Result<(Seq<Stmt>, int), DecodeError> {
    let mc = cursor + 1;
    if p.rep is Some || p.lock || p.segment is Some {
        Err(DecodeError::UnsupportedOpcode(opcode))
    } else if mc >= b.len() {
        Err(DecodeError::Truncated)
    } else {
        let m = modrm::modrm_of(b[mc]);
        if m.mod_ == 3 {
            Err(DecodeError::UnsupportedOpcode(opcode))
        } else if !rm_ok(m, p, b, mc) {
            Err(mem_operand(m, p, b, mc)->Err_0)
        } else {
            let size = spec_operand_size(p);
            Ok((seq![def(s, op_ld_reg(reg_reg(m, p), size))] + rm_write_code(p, m, b, mc, size, s, s + 1), rm_insn_len(m, b, mc)))
        }
    }
}

#[verifier::spinoff_prover]
pub(crate) fn decode_mov_rm_r(
    prefixes: &PrefixSet,
    bytes: &[u8],
    cursor: usize,
    stmts: &mut Vec<Stmt>,
) -> (res: Result<usize, DecodeError>)
    requires
        cursor < bytes.len(),
        bytes.len() <= isize::MAX,
        room(old(stmts)@),
        ssa_wf(old(stmts)@),
    ensures
        ssa_wf(final(stmts)@),
        old(stmts).len() <= final(stmts).len() <= old(stmts).len() + 0x100,
        res matches Ok(n) ==> 1 <= n <= 16,
        lowered(mov_rm_r_code(*prefixes, bytes@, cursor as int, spec_operand_size(*prefixes), old(stmts).len() as int), old(stmts)@, final(stmts)@, res),
{
    let size = operand_size(prefixes, true);
    decode_mov_rm_r_with_size(prefixes, bytes, cursor, stmts, size)
}

#[verifier::spinoff_prover]
pub(crate) fn decode_mov_rm_r_with_size(
    prefixes: &PrefixSet,
    bytes: &[u8],
    cursor: usize,
    stmts: &mut Vec<Stmt>,
    size: OpSize,
) -> (res: Result<usize, DecodeError>)
    requires
        cursor < bytes.len(),
        bytes.len() <= isize::MAX,
        room(old(stmts)@),
        ssa_wf(old(stmts)@),
    ensures
        ssa_wf(final(stmts)@),
        old(stmts).len() <= final(stmts).len() <= old(stmts).len() + 0x100,
        res matches Ok(n) ==> 1 <= n <= 16,
        lowered(mov_rm_r_code(*prefixes, bytes@, cursor as int, size, old(stmts).len() as int), old(stmts)@, final(stmts)@, res),
{
    let (modrm, _after) = modrm::parse_modrm(bytes, cursor + 1)?;
    let source_reg = map_reg(modrm.reg, &prefixes.rex, true);
    let ghost s0 = stmts@;
    let value_ref = emit(stmts, Op::LoadReg(LoadReg {
            reg: source_reg,
            size,
        }));
    let ghost s1 = stmts@;
    let used = emit_rm_write(prefixes, modrm, bytes, cursor + 1, size, value_ref, stmts)?;
    proof {
        assert(stmts@ =~= s0 + (seq![s1.last()] + rm_write_code(*prefixes, modrm, bytes@, cursor + 1, size, s0.len() as int, s0.len() + 1int)));
    }
    Ok(1 + used)
}

#[verifier::spinoff_prover]
pub(crate) fn decode_mov_moffs(
    prefixes: &PrefixSet,
    opcode: u8,
    bytes: &[u8],
    cursor: usize,
    stmts: &mut Vec<Stmt>,
) -> (res: Result<usize, DecodeError>)
    requires
        cursor < bytes.len(),
        bytes.len() <= isize::MAX,
        room(old(stmts)@),
        ssa_wf(old(stmts)@),
    ensures
        ssa_wf(final(stmts)@),
        old(stmts).len() <= final(stmts).len() <= old(stmts).len() + 0x100,
        res matches Ok(n) ==> 1 <= n <= 16,
        lowered(mov_moffs_code(*prefixes, opcode, bytes@, cursor as int, old(stmts).len() as int), old(stmts)@, final(stmts)@, res),
{
    if prefixes.lock || prefixes.rep.is_some() {
        return Err(DecodeError::UnsupportedOpcode(opcode));
    }

    let size = match opcode {
        0xA0 | 0xA2 => OpSize::I8,
        0xA1 | 0xA3 => operand_size(prefixes, true),
        _ => return Err(DecodeError::UnsupportedOpcode(opcode)),
    };
    let addr_bytes = if prefixes.addr_override { 4 } else { 8 };
    let addr_value = read_imm(bytes, cursor + 1, addr_bytes)?;
    let ghost s0 = stmts@;
    let addr = emit(stmts, Op::Constant(Constant {
            value: addr_value,
            size: OpSize::I64,
        }));

    if opcode == 0xA0 || opcode == 0xA1 {
        let value = emit(stmts, Op::LoadMem(LoadMem { addr, size }));
        emit_void(stmts, Op::StoreReg(StoreReg {
                reg: Gpr::Rax,
                value,
                size,
            }));
    } else {
        let value = emit(stmts, Op::LoadReg(LoadReg {
                reg: Gpr::Rax,
                size,
            }));
        emit_void(stmts, Op::StoreMem(StoreMem { addr, value, size }));
    }

    proof {
        let sp: int = s0.len() as int;
        let a = def(sp, op_const(addr_value, OpSize::I64));
        if opcode == 0xA0 || opcode == 0xA1 {
            assert(stmts@ =~= s0 + seq![a, def(sp + 1, op_ld_mem(sp, size)), eff(op_st_reg(Gpr::Rax, sp + 1, size))]);
        } else {
            assert(stmts@ =~= s0 + seq![a, def(sp + 1, op_ld_reg(Gpr::Rax, size)), eff(op_st_mem(sp, sp + 1, size))]);
        }
    }
    Ok(1 + addr_bytes)
}

#[verifier::spinoff_prover]
pub(crate) fn decode_mov_r_rm(
    prefixes: &PrefixSet,
    bytes: &[u8],
    cursor: usize,
    stmts: &mut Vec<Stmt>,
) -> (res: Result<usize, DecodeError>)
    requires
        cursor < bytes.len(),
        bytes.len() <= isize::MAX,
        room(old(stmts)@),
        ssa_wf(old(stmts)@),
    ensures
        ssa_wf(final(stmts)@),
        old(stmts).len() <= final(stmts).len() <= old(stmts).len() + 0x100,
        res matches Ok(n) ==> 1 <= n <= 16,
        lowered(mov_r_rm_code(*prefixes, bytes@, cursor as int, spec_operand_size(*prefixes), old(stmts).len() as int), old(stmts)@, final(stmts)@, res),
{
    let size = operand_size(prefixes, true);
    decode_mov_r_rm_with_size(prefixes, bytes, cursor, stmts, size)
}

#[verifier::spinoff_prover]
pub(crate) fn decode_mov_r_rm_with_size(
    prefixes: &PrefixSet,
    bytes: &[u8],
    cursor: usize,
    stmts: &mut Vec<Stmt>,
    size: OpSize,
) -> (res: Result<usize, DecodeError>)
    requires
        cursor < bytes.len(),
        bytes.len() <= isize::MAX,
        room(old(stmts)@),
        ssa_wf(old(stmts)@),
    ensures
        ssa_wf(final(stmts)@),
        old(stmts).len() <= final(stmts).len() <= old(stmts).len() + 0x100,
        res matches Ok(n) ==> 1 <= n <= 16,
        lowered(mov_r_rm_code(*prefixes, bytes@, cursor as int, size, old(stmts).len() as int), old(stmts)@, final(stmts)@, res),
{
    let (modrm, _after) = modrm::parse_modrm(bytes, cursor + 1)?;
    let dst_reg = map_reg(modrm.reg, &prefixes.rex, true);
    let ghost s0 = stmts@;
    let (src, _addr, used) = emit_rm_load(modrm, prefixes, bytes, cursor + 1, 0, size, stmts)?;
    emit_void(stmts, Op::StoreReg(StoreReg {
            reg: dst_reg,
            value: src,
            size,
        }));
    proof {
        let r = rm_load(modrm, *prefixes, bytes@, cursor + 1, 0, size, s0.len() as int);
        assert(stmts@ =~= s0 + (r.0 + seq![eff(op_st_reg(reg_reg(modrm, *prefixes), r.1, size))]));
    }
    Ok(1 + used)
}

#[verifier::spinoff_prover]
pub(crate) fn decode_lea(
    prefixes: &PrefixSet,
    bytes: &[u8],
    cursor: usize,
    stmts: &mut Vec<Stmt>,
) -> (res: Result<usize, DecodeError>)
    requires
        cursor < bytes.len(),
        bytes.len() <= isize::MAX,
        room(old(stmts)@),
        ssa_wf(old(stmts)@),
    ensures
        ssa_wf(final(stmts)@),
        old(stmts).len() <= final(stmts).len() <= old(stmts).len() + 0x100,
        res matches Ok(n) ==> 1 <= n <= 16,
        lowered(lea_code(*prefixes, bytes@, cursor as int, old(stmts).len() as int), old(stmts)@, final(stmts)@, res),
{
    if prefixes.rep.is_some()
        || prefixes.lock
        || prefixes.segment.is_some()
        || prefixes.operand_override
        || prefixes.addr_override
    {
        return Err(DecodeError::UnsupportedOpcode(0x8D));
    }

    let (modrm, _after) = modrm::parse_modrm(bytes, cursor + 1)?;
    if modrm.mod_ == 3 {
        return Err(DecodeError::UnsupportedOpcode(0x8D));
    }

    let dst_reg = map_reg(modrm.reg, &prefixes.rex, true);
    let size = if prefixes.rex.w {
        OpSize::I64
    } else {
        OpSize::I32
    };
    let ghost s0 = stmts@;
    let (addr, used) = emit_addr_with_size(modrm, prefixes, bytes, cursor + 1, stmts)?;
    emit_void(stmts, Op::StoreReg(StoreReg {
            reg: dst_reg,
            value: addr,
            size,
        }));
    proof {
        let c = addr_code(mem_operand(modrm, *prefixes, bytes@, cursor + 1)->Ok_0, 0, s0.len() as int);
        assert(stmts@ =~= s0 + (c.0 + seq![eff(op_st_reg(reg_reg(modrm, *prefixes), c.1, size))]));
    }
    Ok(1 + used)
}

#[verifier::spinoff_prover]
pub(crate) fn decode_mov_ri(
    prefixes: &PrefixSet,
    opcode: u8,
    bytes: &[u8],
    cursor: usize,
    stmts: &mut Vec<Stmt>,
) -> (res: Result<usize, DecodeError>)
    requires
        cursor < bytes.len(),
        bytes.len() <= isize::MAX,
        room(old(stmts)@),
        ssa_wf(old(stmts)@),
    ensures
        ssa_wf(final(stmts)@),
        old(stmts).len() <= final(stmts).len() <= old(stmts).len() + 0x100,
        res matches Ok(n) ==> 1 <= n <= 16,
        lowered(mov_ri_code(*prefixes, opcode, bytes@, cursor as int, old(stmts).len() as int), old(stmts)@, final(stmts)@, res),
{
    let size = operand_size(prefixes, true);
    let reg_idx = opcode & 0x7;
    let reg = map_reg_raw(reg_idx, &prefixes.rex);
    let imm_bytes = size.bit_width() as usize / 8;
    assert(imm_bytes == size_bytes(size) && imm_bytes <= 8);
    let imm = read_imm(bytes, cursor + 1, imm_bytes)?;
    let ghost s0 = stmts@;
    let r = emit(stmts, Op::Constant(Constant { value: imm, size }));
    emit_void(stmts, Op::StoreReg(StoreReg {
            reg,
            value: r,
            size,
        }));
    assert(stmts@ =~= s0 + seq![def(s0.len() as int, op_const(imm, size)), eff(op_st_reg(reg, s0.len() as int, size))]);
    Ok(1 + imm_bytes)
}

#[verifier::spinoff_prover]
pub(crate) fn decode_mov_r8_i8(
    prefixes: &PrefixSet,
    opcode: u8,
    bytes: &[u8],
    cursor: usize,
    stmts: &mut Vec<Stmt>,
) -> (res: Result<usize, DecodeError>)
    requires
        cursor < bytes.len(),
        bytes.len() <= isize::MAX,
        room(old(stmts)@),
        ssa_wf(old(stmts)@),
    ensures
        ssa_wf(final(stmts)@),
        old(stmts).len() <= final(stmts).len() <= old(stmts).len() + 0x100,
        res matches Ok(n) ==> 1 <= n <= 16,
        lowered(mov_r8_i8_code(*prefixes, opcode, bytes@, cursor as int, old(stmts).len() as int), old(stmts)@, final(stmts)@, res),
{
    let reg = map_reg_raw(opcode & 0x7, &prefixes.rex);
    let imm = (byte_at(bytes, cursor + 1)? as u64);
    let ghost s0 = stmts@;
    let r = emit(stmts, Op::Constant(Constant {
            value: imm,
            size: OpSize::I8,
        }));
    emit_void(stmts, Op::StoreReg(StoreReg {
            reg,
            value: r,
            size: OpSize::I8,
        }));
    assert(stmts@ =~= s0 + seq![def(s0.len() as int, op_const(imm, OpSize::I8)), eff(op_st_reg(reg, s0.len() as int, OpSize::I8))]);
    Ok(2)
}

#[verifier::spinoff_prover]
pub(crate) fn decode_mov_rm_imm(
    prefixes: &PrefixSet,
    opcode: u8,
    bytes: &[u8],
    cursor: usize,
    stmts: &mut Vec<Stmt>,
) -> (res: Result<usize, DecodeError>)
    requires
        cursor < bytes.len(),
        bytes.len() <= isize::MAX,
        room(old(stmts)@),
        ssa_wf(old(stmts)@),
    ensures
        ssa_wf(final(stmts)@),
        old(stmts).len() <= final(stmts).len() <= old(stmts).len() + 0x100,
        res matches Ok(n) ==> 1 <= n <= 16,
        lowered(mov_rm_imm_code(*prefixes, opcode, bytes@, cursor as int, old(stmts).len() as int), old(stmts)@, final(stmts)@, res),
{
    if prefixes.rep.is_some() || prefixes.lock || prefixes.segment.is_some() {
        return Err(DecodeError::UnsupportedOpcode(opcode));
    }

    let size = if opcode == 0xC6 {
        OpSize::I8
    } else {
        operand_size(prefixes, true)
    };
    let (modrm, _after) = modrm::parse_modrm(bytes, cursor + 1)?;
    if modrm.reg != 0 {
        return Err(DecodeError::UnsupportedOpcode(opcode));
    }

    let modrm_bytes = bytes_for_modrm(&modrm, bytes, cursor + 1)?;
    let imm_offset = cursor + 1 + modrm_bytes;
    let imm_bytes = match (opcode, size) {
        (0xC6, _) => 1,
        (0xC7, OpSize::I16) => 2,
        (0xC7, OpSize::I32 | OpSize::I64) => 4,
        _ => return Err(DecodeError::UnsupportedOpcode(opcode)),
    };
    let mut imm = read_imm(bytes, imm_offset, imm_bytes)?;
    if opcode == 0xC7 && size == OpSize::I64 {
        imm = (imm as i32 as i64 as u64);
    }

    let ghost s0 = stmts@;
    let value = emit(stmts, Op::Constant(Constant { value: imm, size }));
    let ghost s1 = stmts@;
    emit_rm_write(prefixes, modrm, bytes, cursor + 1, size, value, stmts)?;
    proof {
        assert(stmts@ =~= s0 + (seq![s1.last()] + rm_write_code(*prefixes, modrm, bytes@, cursor + 1, size, s0.len() as int, s0.len() + 1int)));
    }
    Ok(1 + modrm_bytes + imm_bytes)
}

#[verifier::spinoff_prover]
pub(crate) fn decode_acc_imm(
    prefixes: &PrefixSet,
    opcode: u8,
    bytes: &[u8],
    cursor: usize,
    stmts: &mut Vec<Stmt>,
) -> (res: Result<usize, DecodeError>)
    requires
        cursor < bytes.len(),
        bytes.len() <= isize::MAX,
        room(old(stmts)@),
        ssa_wf(old(stmts)@),
    ensures
        ssa_wf(final(stmts)@),
        old(stmts).len() <= final(stmts).len() <= old(stmts).len() + 0x100,
        res matches Ok(n) ==> 1 <= n <= 16,
        lowered(acc_imm_code(*prefixes, opcode, bytes@, cursor as int, old(stmts).len() as int), old(stmts)@, final(stmts)@, res),
{
    if prefixes.rep.is_some() || prefixes.lock || prefixes.segment.is_some() {
        return Err(DecodeError::UnsupportedOpcode(opcode));
    }

    let is_byte = matches!(
        opcode,
        0x04 | 0x0C | 0x14 | 0x1C | 0x24 | 0x2C | 0x34 | 0x3C | 0xA8
    );
    let size = if is_byte {
        OpSize::I8
    } else {
        operand_size(prefixes, true)
    };
    let imm_bytes = if is_byte {
        1
    } else if size == OpSize::I16 {
        2
    } else {
        4
    };
    let mut imm = read_imm(bytes, cursor + 1, imm_bytes)?;
    if !is_byte && size == OpSize::I64 {
        imm = (imm as i32 as i64 as u64);
    }

    let ghost s0 = stmts@;
    let lhs = emit(stmts, Op::LoadReg(LoadReg {
            reg: Gpr::Rax,
            size,
        }));
    let rhs = emit(stmts, Op::Constant(Constant { value: imm, size }));

    match opcode {
        0x3C | 0x3D => {
            let flags = emit(stmts, Op::CmpFlags(CmpFlags { lhs, rhs, size }));
        }
        0xA8 | 0xA9 => {
            emit_void(stmts, Op::AluFlags(AluFlags {
                    op: BinOpKind::And,
                    lhs,
                    rhs,
                    size,
                }));
        }
        _ => {
            let op = match opcode {
                0x04 | 0x05 => BinOpKind::Add,
                0x0C | 0x0D => BinOpKind::Or,
                0x14 | 0x15 => BinOpKind::Add,
                0x1C | 0x1D => BinOpKind::Sub,
                0x24 | 0x25 => BinOpKind::And,
                0x2C | 0x2D => BinOpKind::Sub,
                0x34 | 0x35 => BinOpKind::Xor,
                _ => return Err(DecodeError::UnsupportedOpcode(opcode)),
            };
            let result = emit(stmts, Op::BinOp(BinOp { op, lhs, rhs, size }));
            emit_void(stmts, Op::StoreReg(StoreReg {
                    reg: Gpr::Rax,
                    value: result,
                    size,
                }));
        }
    }

    proof {
        let sp: int = s0.len() as int;
        let operands = seq![def(sp, op_ld_reg(Gpr::Rax, size)), def(sp + 1, op_const(imm, size))];
        if opcode == 0x3C || opcode == 0x3D {
            assert(stmts@ =~= s0 + (operands + seq![def(sp + 2, Op::CmpFlags(CmpFlags { lhs: sp as u32, rhs: (sp + 1) as u32, size }))]));
        } else if opcode == 0xA8 || opcode == 0xA9 {
            assert(stmts@ =~= s0 + (operands + seq![eff(Op::AluFlags(AluFlags { op: BinOpKind::And, lhs: sp as u32, rhs: (sp + 1) as u32, size }))]));
        } else {
            let k = acc_kind(opcode)->Some_0;
            assert(stmts@ =~= s0 + (operands + seq![def(sp + 2, op_bin(k, sp, sp + 1, size)), eff(op_st_reg(Gpr::Rax, sp + 2, size))]));
        }
    }
    Ok(1 + imm_bytes)
}

#[verifier::spinoff_prover]
pub(crate) fn decode_movzx(
    prefixes: &PrefixSet,
    bytes: &[u8],
    cursor: usize,
    stmts: &mut Vec<Stmt>,
    from: OpSize,
) -> (res: Result<usize, DecodeError>)
    requires
        cursor < bytes.len(),
        bytes.len() <= isize::MAX,
        room(old(stmts)@),
        ssa_wf(old(stmts)@),
    ensures
        ssa_wf(final(stmts)@),
        old(stmts).len() <= final(stmts).len() <= old(stmts).len() + 0x100,
        res matches Ok(n) ==> 1 <= n <= 16,
        lowered(extend_code(*prefixes, bytes@, cursor as int, from, spec_operand_size(*prefixes), false, old(stmts).len() as int), old(stmts)@, final(stmts)@, res),
{
    let size = operand_size(prefixes, true);
    let (modrm, _after) = modrm::parse_modrm(bytes, cursor + 1)?;
    emit_extend(prefixes, modrm, bytes, cursor + 1, from, size, false, stmts)
}

#[verifier::spinoff_prover]
pub(crate) fn decode_movsx(
    prefixes: &PrefixSet,
    bytes: &[u8],
    cursor: usize,
    stmts: &mut Vec<Stmt>,
    from: OpSize,
) -> (res: Result<usize, DecodeError>)
    requires
        cursor < bytes.len(),
        bytes.len() <= isize::MAX,
        room(old(stmts)@),
        ssa_wf(old(stmts)@),
    ensures
        ssa_wf(final(stmts)@),
        old(stmts).len() <= final(stmts).len() <= old(stmts).len() + 0x100,
        res matches Ok(n) ==> 1 <= n <= 16,
        lowered(extend_code(*prefixes, bytes@, cursor as int, from, spec_operand_size(*prefixes), true, old(stmts).len() as int), old(stmts)@, final(stmts)@, res),
{
    let size = operand_size(prefixes, true);
    let (modrm, _after) = modrm::parse_modrm(bytes, cursor + 1)?;
    emit_extend(prefixes, modrm, bytes, cursor + 1, from, size, true, stmts)
}

#[verifier::spinoff_prover]
pub(crate) fn decode_movsxd(
    prefixes: &PrefixSet,
    bytes: &[u8],
    cursor: usize,
    stmts: &mut Vec<Stmt>,
) -> (res: Result<usize, DecodeError>)
    requires
        cursor < bytes.len(),
        bytes.len() <= isize::MAX,
        room(old(stmts)@),
        ssa_wf(old(stmts)@),
    ensures
        ssa_wf(final(stmts)@),
        old(stmts).len() <= final(stmts).len() <= old(stmts).len() + 0x100,
        res matches Ok(n) ==> 1 <= n <= 16,
        lowered(movsxd_code(*prefixes, bytes@, cursor as int, old(stmts).len() as int), old(stmts)@, final(stmts)@, res),
{
    if prefixes.operand_override {
        if prefixes.rep.is_some()
            || prefixes.lock
            || prefixes.segment.is_some()
            || prefixes.addr_override
            || prefixes.rex.present
        {
            return Err(DecodeError::UnsupportedOpcode(0x63));
        }
        let (modrm, _) = modrm::parse_modrm(bytes, cursor + 1)?;
        let modrm_bytes = bytes_for_modrm(&modrm, bytes, cursor + 1)?;
        let ghost s0 = stmts@;
        emit_void(stmts, Op::Trap(Trap {
                kind: TrapKind::Sigill,
            }));
        assert(stmts@ =~= s0 + seq![eff(Op::Trap(Trap { kind: TrapKind::Sigill }))]);
        return Ok(1 + modrm_bytes);
    }

    if prefixes.rep.is_some()
        || prefixes.lock
        || prefixes.segment.is_some()
        || prefixes.addr_override
    {
        return Err(DecodeError::UnsupportedOpcode(0x63));
    }

    let (modrm, _after) = modrm::parse_modrm(bytes, cursor + 1)?;
    if prefixes.rex.w {
        return emit_extend(prefixes, modrm, bytes, cursor + 1, OpSize::I32, OpSize::I64, true, stmts);
    }
    let dst_reg = map_reg(modrm.reg, &prefixes.rex, true);
    let ghost s0 = stmts@;
    let (src, _addr, used) = emit_rm_load(modrm, prefixes, bytes, cursor + 1, 0, OpSize::I32, stmts)?;
    emit_void(stmts, Op::StoreReg(StoreReg {
            reg: dst_reg,
            value: src,
            size: OpSize::I32,
        }));
    proof {
        let r = rm_load(modrm, *prefixes, bytes@, cursor + 1, 0, OpSize::I32, s0.len() as int);
        assert(stmts@ =~= s0 + (r.0 + seq![eff(op_st_reg(reg_reg(modrm, *prefixes), r.1, OpSize::I32))]));
    }
    Ok(1 + used)
}

#[verifier::spinoff_prover]
pub(crate) fn decode_cmov(
    prefixes: &PrefixSet,
    opcode: u8,
    bytes: &[u8],
    cursor: usize,
    stmts: &mut Vec<Stmt>,
) -> (res: Result<usize, DecodeError>)
    requires
        cursor < bytes.len(),
        bytes.len() <= isize::MAX,
        room(old(stmts)@),
        ssa_wf(old(stmts)@),
    ensures
        ssa_wf(final(stmts)@),
        old(stmts).len() <= final(stmts).len() <= old(stmts).len() + 0x100,
        res matches Ok(n) ==> 1 <= n <= 16,
        lowered(cmov_code(*prefixes, opcode, bytes@, cursor as int, old(stmts).len() as int), old(stmts)@, final(stmts)@, res),
{
    if prefixes.rep.is_some() || prefixes.lock || prefixes.segment.is_some() {
        return Err(DecodeError::UnsupportedOpcode(opcode));
    }

    let cc = jcc_condition(opcode).ok_or(DecodeError::UnsupportedOpcode(opcode))?;
    let size = operand_size(prefixes, true);
    let (modrm, _after) = modrm::parse_modrm(bytes, cursor + 1)?;
    let dst_reg = map_reg(modrm.reg, &prefixes.rex, true);

    let ghost s0 = stmts@;
    let false_value = emit(stmts, Op::LoadReg(LoadReg { reg: dst_reg, size }));
    let (true_value, _addr, used) = emit_rm_load(modrm, prefixes, bytes, cursor + 1, 0, size, stmts)?;
    let selected = emit(stmts, Op::Select(Select {
            cc,
            true_value,
            false_value,
            size,
        }));
    emit_void(stmts, Op::StoreReg(StoreReg {
            reg: dst_reg,
            value: selected,
            size,
        }));
    proof {
        let r = rm_load(modrm, *prefixes, bytes@, cursor + 1, 0, size, s0.len() + 1int);
        let k: int = s0.len() as int + 1 + r.0.len();
        assert(stmts@ =~= s0 + (seq![def(s0.len() as int, op_ld_reg(reg_reg(modrm, *prefixes), size))] + r.0 + seq![
            def(k, Op::Select(Select { cc, true_value: r.1 as u32, false_value: s0.len() as u32, size })),
            eff(op_st_reg(reg_reg(modrm, *prefixes), k, size)),
        ]));
    }
    Ok(1 + used)
}

#[verifier::spinoff_prover]
pub(crate) fn decode_setcc(
    prefixes: &PrefixSet,
    opcode: u8,
    bytes: &[u8],
    cursor: usize,
    stmts: &mut Vec<Stmt>,
) -> (res: Result<usize, DecodeError>)
    requires
        cursor < bytes.len(),
        bytes.len() <= isize::MAX,
        room(old(stmts)@),
        ssa_wf(old(stmts)@),
    ensures
        ssa_wf(final(stmts)@),
        old(stmts).len() <= final(stmts).len() <= old(stmts).len() + 0x100,
        res matches Ok(n) ==> 1 <= n <= 16,
        lowered(setcc_code(*prefixes, opcode, bytes@, cursor as int, old(stmts).len() as int), old(stmts)@, final(stmts)@, res),
{
    if prefixes.rep.is_some() || prefixes.lock || prefixes.segment.is_some() {
        return Err(DecodeError::UnsupportedOpcode(opcode));
    }

    let cc = jcc_condition(opcode).ok_or(DecodeError::UnsupportedOpcode(opcode))?;
    let (modrm, _after) = modrm::parse_modrm(bytes, cursor + 1)?;

    let ghost s0 = stmts@;
    let one = emit(stmts, Op::Constant(Constant {
            value: 1,
            size: OpSize::I8,
        }));
    let zero = emit(stmts, Op::Constant(Constant {
            value: 0,
            size: OpSize::I8,
        }));
    let selected = emit(stmts, Op::Select(Select {
            cc,
            true_value: one,
            false_value: zero,
            size: OpSize::I8,
        }));
    let ghost s1 = stmts@;
    let used = emit_rm_write(prefixes, modrm, bytes, cursor + 1, OpSize::I8, selected, stmts)?;
    proof {
        let sp: int = s0.len() as int;
        let head = seq![
            def(sp, op_const(1, OpSize::I8)),
            def(sp + 1, op_const(0, OpSize::I8)),
            def(sp + 2, Op::Select(Select { cc, true_value: sp as u32, false_value: (sp + 1) as u32, size: OpSize::I8 })),
        ];
        assert(s1 =~= s0 + head);
        assert(stmts@ =~= s0 + (head + rm_write_code(*prefixes, modrm, bytes@, cursor + 1, OpSize::I8, sp + 2, sp + 3)));
    }
    Ok(1 + used)
}

#[verifier::spinoff_prover]
pub(crate) fn decode_xchg(
    prefixes: &PrefixSet,
    opcode: u8,
    bytes: &[u8],
    cursor: usize,
    stmts: &mut Vec<Stmt>,
) -> (res: Result<usize, DecodeError>)
    requires
        cursor < bytes.len(),
        bytes.len() <= isize::MAX,
        room(old(stmts)@),
        ssa_wf(old(stmts)@),
    ensures
        ssa_wf(final(stmts)@),
        old(stmts).len() <= final(stmts).len() <= old(stmts).len() + 0x100,
        res matches Ok(n) ==> 1 <= n <= 16,
        lowered(xchg_code(*prefixes, opcode, bytes@, cursor as int, old(stmts).len() as int), old(stmts)@, final(stmts)@, res),
{
    let size = if opcode == 0x86 {
        OpSize::I8
    } else {
        operand_size(prefixes, true)
    };
    let (modrm, _after) = modrm::parse_modrm(bytes, cursor + 1)?;
    let reg_a = map_reg(modrm.reg, &prefixes.rex, true);

    let ghost s0 = stmts@;
    let val_a = emit(stmts, Op::LoadReg(LoadReg { reg: reg_a, size }));
    let (val_b, addr, used) = emit_rm_load(modrm, prefixes, bytes, cursor + 1, 0, size, stmts)?;
    emit_void(stmts, Op::StoreReg(StoreReg {
            reg: reg_a,
            value: val_b,
            size,
        }));
    emit_rm_store(modrm, prefixes, size, addr, val_a, stmts);
    proof {
        let r = rm_load(modrm, *prefixes, bytes@, cursor + 1, 0, size, s0.len() + 1int);
        assert(stmts@ =~= s0 + (seq![def(s0.len() as int, op_ld_reg(reg_reg(modrm, *prefixes), size))] + r.0 + seq![
            eff(op_st_reg(reg_reg(modrm, *prefixes), r.1, size)),
            rm_store(modrm, *prefixes, size, r.2, s0.len() as int),
        ]));
    }
    Ok(1 + used)
}

#[verifier::spinoff_prover]
pub(crate) fn decode_xchg_acc(prefixes: &PrefixSet, opcode: u8, stmts: &mut Vec<Stmt>) -> (res: usize)
    requires
        room(old(stmts)@),
        ssa_wf(old(stmts)@),
    ensures
        ssa_wf(final(stmts)@),
        old(stmts).len() <= final(stmts).len() <= old(stmts).len() + 0x100,
        1 <= res <= 16,
        res == 1 && final(stmts)@ == old(stmts)@ + xchg_acc_code(*prefixes, opcode, old(stmts).len() as int),
{
    let ghost s0 = stmts@;
    let size = operand_size(prefixes, true);
    let other = map_reg_raw(opcode & 0x7, &prefixes.rex);
    let acc_val = emit(stmts, Op::LoadReg(LoadReg {
            reg: Gpr::Rax,
            size,
        }));
    let other_val = emit(stmts, Op::LoadReg(LoadReg { reg: other, size }));
    emit_void(stmts, Op::StoreReg(StoreReg {
            reg: Gpr::Rax,
            value: other_val,
            size,
        }));
    emit_void(stmts, Op::StoreReg(StoreReg {
            reg: other,
            value: acc_val,
            size,
        }));
    proof {
        assert(stmts@ =~= s0 + xchg_acc_code(*prefixes, opcode, s0.len() as int));
    }
    1
}

#[verifier::spinoff_prover]
pub(crate) fn decode_xlat(prefixes: &PrefixSet, stmts: &mut Vec<Stmt>) -> (res: Result<usize, DecodeError>)
    requires
        room(old(stmts)@),
        ssa_wf(old(stmts)@),
    ensures
        ssa_wf(final(stmts)@),
        old(stmts).len() <= final(stmts).len() <= old(stmts).len() + 0x100,
        res matches Ok(n) ==> 1 <= n <= 16,
        lowered(xlat_code(*prefixes, old(stmts).len() as int), old(stmts)@, final(stmts)@, res),
{
    let ghost s0 = stmts@;
    if prefixes.addr_override
        || prefixes.lock
        || prefixes.segment.is_some()
        || prefixes.rep.is_some()
    {
        return Err(DecodeError::UnsupportedOpcode(0xD7));
    }

    let al = emit(stmts, Op::LoadReg(LoadReg {
            reg: Gpr::Rax,
            size: OpSize::I8,
        }));
    let index = emit(stmts, Op::Extend(Extend {
            value: al,
            from_size: OpSize::I8,
            to_size: OpSize::I64,
            is_signed: false,
        }));
    let base = emit(stmts, Op::LoadReg(LoadReg {
            reg: Gpr::Rbx,
            size: OpSize::I64,
        }));
    let addr = emit(stmts, Op::BinOp(BinOp {
            op: BinOpKind::Add,
            lhs: base,
            rhs: index,
            size: OpSize::I64,
        }));
    let value = emit(stmts, Op::LoadMem(LoadMem {
            addr,
            size: OpSize::I8,
        }));
    emit_void(stmts, Op::StoreReg(StoreReg {
            reg: Gpr::Rax,
            value,
            size: OpSize::I8,
        }));
    proof {
        assert(stmts@ =~= s0 + xlat_code(*prefixes, s0.len() as int)->Ok_0.0);
    }
    Ok(1)
}

#[verifier::spinoff_prover]
pub(crate) fn decode_sign_extend_acc(prefixes: &PrefixSet, stmts: &mut Vec<Stmt>) -> (res: usize)
    requires
        room(old(stmts)@),
        ssa_wf(old(stmts)@),
    ensures
        ssa_wf(final(stmts)@),
        old(stmts).len() <= final(stmts).len() <= old(stmts).len() + 0x100,
        1 <= res <= 16,
        res == 1 && final(stmts)@ == old(stmts)@ + sign_extend_acc_code(*prefixes, old(stmts).len() as int),
{
    let ghost s0 = stmts@;
    let (from_size, to_size) = if prefixes.rex.w {
        (OpSize::I32, OpSize::I64)
    } else if prefixes.operand_override {
        (OpSize::I8, OpSize::I16)
    } else {
        (OpSize::I16, OpSize::I32)
    };
    let value = emit(stmts, Op::LoadReg(LoadReg {
            reg: Gpr::Rax,
            size: from_size,
        }));
    let extended = emit(stmts, Op::Extend(Extend {
            value,
            from_size,
            to_size,
            is_signed: true,
        }));
    emit_void(stmts, Op::StoreReg(StoreReg {
            reg: Gpr::Rax,
            value: extended,
            size: to_size,
        }));
    proof {
        assert(stmts@ =~= s0 + sign_extend_acc_code(*prefixes, s0.len() as int));
    }
    1
}

#[verifier::spinoff_prover]
pub(crate) fn decode_sign_extend_acc_to_dx(prefixes: &PrefixSet, stmts: &mut Vec<Stmt>) -> (res: usize)
    requires
        room(old(stmts)@),
        ssa_wf(old(stmts)@),
    ensures
        ssa_wf(final(stmts)@),
        old(stmts).len() <= final(stmts).len() <= old(stmts).len() + 0x100,
        1 <= res <= 16,
        res == 1 && final(stmts)@ == old(stmts)@ + sign_extend_acc_to_dx_code(*prefixes, old(stmts).len() as int),
{
    let ghost s0 = stmts@;
    let size = if prefixes.rex.w {
        OpSize::I64
    } else if prefixes.operand_override {
        OpSize::I16
    } else {
        OpSize::I32
    };
    let shift_bits = match size {
        OpSize::I64 => 63,
        OpSize::I32 => 31,
        OpSize::I16 => 15,
        OpSize::I8 => 7,
    };
    let value = emit(stmts, Op::LoadReg(LoadReg {
            reg: Gpr::Rax,
            size,
        }));
    let shift = emit(stmts, Op::Constant(Constant {
            value: shift_bits,
            size,
        }));
    let high = emit(stmts, Op::BinOp(BinOp {
            op: BinOpKind::Sar,
            lhs: value,
            rhs: shift,
            size,
        }));
    emit_void(stmts, Op::StoreReg(StoreReg {
            reg: Gpr::Rdx,
            value: high,
            size,
        }));
    proof {
        assert(stmts@ =~= s0 + sign_extend_acc_to_dx_code(*prefixes, s0.len() as int));
    }
    1
}

#[verifier::spinoff_prover]
pub(crate) fn decode_movnti(
    prefixes: &PrefixSet,
    opcode: u8,
    bytes: &[u8],
    cursor: usize,
    stmts: &mut Vec<Stmt>,
) -> (res: Result<usize, DecodeError>)
    requires
        cursor < bytes.len(),
        bytes.len() <= isize::MAX,
        room(old(stmts)@),
        ssa_wf(old(stmts)@),
    ensures
        ssa_wf(final(stmts)@),
        old(stmts).len() <= final(stmts).len() <= old(stmts).len() + 0x100,
        res matches Ok(n) ==> 1 <= n <= 16,
        lowered(movnti_code(*prefixes, opcode, bytes@, cursor as int, old(stmts).len() as int), old(stmts)@, final(stmts)@, res),
{
    if prefixes.rep.is_some() || prefixes.lock || prefixes.segment.is_some() {
        return Err(DecodeError::UnsupportedOpcode(opcode));
    }

    let size = operand_size(prefixes, true);
    let (modrm, _after) = modrm::parse_modrm(bytes, cursor + 1)?;
    if modrm.mod_ == 3 {
        return Err(DecodeError::UnsupportedOpcode(opcode));
    }

    let src_reg = map_reg(modrm.reg, &prefixes.rex, true);
    let ghost s0 = stmts@;
    let value = emit(stmts, Op::LoadReg(LoadReg { reg: src_reg, size }));
    let ghost s1 = stmts@;
    let used = emit_rm_write(prefixes, modrm, bytes, cursor + 1, size, value, stmts)?;
    proof {
        assert(stmts@ =~= s0 + (seq![s1.last()] + rm_write_code(*prefixes, modrm, bytes@, cursor + 1, size, s0.len() as int, s0.len() + 1int)));
    }
    Ok(1 + used)
}

} // verus!
