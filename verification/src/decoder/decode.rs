//! Instruction decoding: prefixes, opcode dispatch and the decoded result.

use vstd::prelude::*;

use crate::decoder::alu::{decode_binop_r_rm, decode_binop_r_rm_with_size, decode_binop_rm_r, decode_binop_rm_r_with_size, decode_cmp_r_rm_with_size, decode_cmp_rm_r, decode_cmp_rm_r_with_size, decode_cmpxchg, decode_test_rm_r, decode_test_rm_r_with_size, decode_xadd};
use crate::decoder::bits::{decode_bsf_bsr, decode_bswap, decode_crc32c, decode_lzcnt, decode_movbe, decode_popcnt, decode_tzcnt};
use crate::decoder::flow::{ret_prefixes_ok, decode_call_rel32, decode_cond_jump_rel32, decode_cond_jump_rel8, decode_enter, decode_jrcxz_rel8, decode_jump_rel32, decode_jump_rel8, decode_leave, decode_loop_rel8, decode_pop_r, decode_pop_rm, decode_push_imm, decode_push_r, decode_ret, decode_ret_imm16};
use crate::decoder::groups::{decode_alu_rm_imm, decode_group2, decode_group3, decode_group4, decode_group5, decode_imul_imm};
use crate::decoder::moves::{decode_acc_imm, decode_cmov, decode_lea, decode_mov_moffs, decode_mov_r8_i8, decode_mov_r_rm, decode_mov_r_rm_with_size, decode_mov_ri, decode_mov_rm_imm, decode_mov_rm_r, decode_mov_rm_r_with_size, decode_movnti, decode_movsx, decode_movsxd, decode_movzx, decode_setcc, decode_sign_extend_acc, decode_sign_extend_acc_to_dx, decode_xchg, decode_xchg_acc, decode_xlat};
use crate::decoder::strings::{decode_cmps, decode_lods, decode_movs, decode_scas, decode_stos};
use crate::decoder::system::{decode_cache_trap, decode_cpuid, decode_descriptor_group, decode_endbr, decode_fence, decode_int_imm8, decode_io_trap_imm8, decode_legacy_invalid_imm8, decode_mmx_state_noop, decode_nop_rm, decode_one_byte_trap, decode_prefetch, decode_prefetchw, decode_rdtsc, decode_syscall, decode_system_group, decode_two_byte_any_rm_trap, decode_two_byte_rm_trap, decode_two_byte_trap, decode_ud2, decode_x87_d9, decode_x87_db};
use crate::decoder::emit::{spec_add_signed_disp, byte_at, room, ssa_wf, stmt_wf};
use crate::decoder::prefixes::{no_legacy_or_rex, no_prefixes, operand_size, parse_prefixes, scan_prefixes, PrefixSet};
use vstd::slice::slice_subrange;
use crate::decoder::tables;
use crate::decoder::tables::{one_byte_class, OneByteOpcode};
use crate::decoder::DecodeError;
use crate::decoder::modrm::le32;
use crate::ir::{op_reads, BinOpKind, CallRel, JumpRel, Op, OpSize, Ref, Return, Stmt, Trap, TrapKind};

use crate::decoder::alu::{lemma_alu_code_combines, binop_r_rm_code, binop_rm_r_code, exchange_compare_code, reg_rm_flags_code, xadd_code};
use crate::decoder::bits::{bsf_bsr_code, bswap_code, count_code, crc32c_code, movbe_code};
use crate::decoder::flow::{
    call_rel32_code, cond_jump_rel32_code, cond_jump_rel8_code, enter_code, jrcxz_code, jump_rel32_code, jump_rel8_code,
    leave_code, loop_code, pop_r_code, pop_rm_code, push_imm_code, push_r_code, ret_code, ret_imm16_code,
};
use crate::decoder::groups::{group1_code, group2_code, group3_code, group4_code, group5_code, imul_imm_code, lowered};
use crate::decoder::moves::{
    acc_imm_code, cmov_code, extend_code, lea_code, mov_moffs_code, mov_r8_i8_code, mov_r_rm_code, mov_ri_code,
    mov_rm_imm_code, mov_rm_r_code, movnti_code, movsxd_code, setcc_code, sign_extend_acc_code, sign_extend_acc_to_dx_code,
    xchg_acc_code, xchg_code, xlat_code,
};
use crate::decoder::strings::{lods_code, movs_code, scas_code, stos_code, string_compare_code, string_prefixes_ok};
use crate::decoder::system::{
    cache_trap_code, descriptor_group_code, edx_eax_code, endbr_result, fence_code, imm8_trap_code, nop_span,
    rm_trap_code, system_group_code, trap, unprefixed, x87_result,
};
use crate::decoder::emit::eff;
use crate::decoder::prefixes::spec_operand_size;
use crate::decoder::tables::{two_byte_class, TwoByteOpcode};
use crate::ir::{Cpuid, Rdtsc, Syscall};

verus! {

/// Result of decoding a single x86 instruction.
#[derive(Debug, Clone, PartialEq)]
pub struct Decoded {
    pub stmts: Vec<Stmt>,
    pub bytes_consumed: usize,
}

/// The bytes from `start` on (none when `start` is past the end): all that
/// decoding at `start` reads.
pub open spec fn input_tail(bytes: Seq<u8>, start: usize) -> Seq<u8> {
    if start <= bytes.len() {
        bytes.subrange(start as int, bytes.len() as int)
    } else {
        Seq::empty()
    }
}

/// General facts of decoding at `start` of `bytes`, where `c` is how far
/// past `start` the prefixes run: `Truncated` when they run to the end,
/// `UnsupportedOpcode` for an opcode byte outside the table, and otherwise,
/// on success, a length that covers the prefixes and the opcode byte and
/// stays within `bytes`, and at most 0x100 statements numbered SSA, each
/// ref read naming an earlier statement that defines it (so no ref is
/// defined twice).
pub open spec fn decode_outcome(bytes: Seq<u8>, start: usize, pc: u64, r: Result<Decoded, DecodeError>) -> bool {
    let t = input_tail(bytes, start);
    let c = scan_prefixes(t, 0, no_prefixes()).1;
    &&& c >= t.len() ==> r == Err::<Decoded, DecodeError>(DecodeError::Truncated)
    &&& (c < t.len() && one_byte_class(t[c]) == OneByteOpcode::Unsupported)
        ==> r == Err::<Decoded, DecodeError>(DecodeError::UnsupportedOpcode(t[c]))
    &&& r matches Ok(d) ==> {
        &&& 0 <= c < t.len()
        &&& c + 1 <= d.bytes_consumed <= c + 17
        &&& start + d.bytes_consumed <= bytes.len()
        &&& d.stmts.len() <= 0x100
        &&& ssa_wf(d.stmts@)
        &&& forall|i: int, j: int| 0 <= i < j < d.stmts.len() && (#[trigger] d.stmts@[i]).result is Some
            ==> d.stmts@[i].result != (#[trigger] d.stmts@[j]).result
    }
}

/// In well-numbered SSA statements every ref a statement reads is defined
/// by an earlier statement, and no two statements define the same ref (as
/// long as there are no more statements than refs).
pub proof fn lemma_ssa_defs_before_uses(s: Seq<Stmt>)
    requires
        ssa_wf(s),
        s.len() <= 0x1_0000_0000,
    ensures
        forall|i: int, r: Ref| 0 <= i < s.len() && #[trigger] op_reads(s[i].op, r)
            ==> exists|j: int| 0 <= j < i && s[j].result == Some(r),
        forall|i: int, j: int| 0 <= i < j < s.len() && #[trigger] s[i].result is Some ==> s[i].result != #[trigger] s[j].result,
{
    assert forall|i: int, r: Ref| 0 <= i < s.len() && #[trigger] op_reads(s[i].op, r)
        implies exists|j: int| 0 <= j < i && s[j].result == Some(r) by {
        assert(stmt_wf(s[i], i));
        assert(s[r as int].result == Some(r));
    }
    assert forall|i: int, j: int| 0 <= i < j < s.len() && #[trigger] s[i].result is Some
        implies s[i].result != #[trigger] s[j].result by {
        assert(stmt_wf(s[i], i));
        assert(stmt_wf(s[j], j));
    }
}

/// What the instruction at the start of `t`, at guest address `pc`,
/// decodes to: its prefixes are scanned, then its opcode byte's lowering
/// (with the statements numbered from zero) gives the statements, and the
/// length counts the prefixes too. `Truncated` when the prefixes run to the
/// end, or when the length claims bytes past the end of `t` (an operand
/// whose displacement is cut off).
pub open spec fn decode_first(t: Seq<u8>, pc: u64) -> Result<(Seq<Stmt>, int), DecodeError> {
    let p = scan_prefixes(t, 0, no_prefixes()).0;
    let c = scan_prefixes(t, 0, no_prefixes()).1;
    if c >= t.len() {
        Err(DecodeError::Truncated)
    } else {
        match one_byte_code(p, t[c], t, c, (pc + c) as u64, 0) {
            Ok((code, n)) => if c + n > t.len() {
                Err(DecodeError::Truncated)
            } else {
                Ok((code, c + n))
            },
            Err(e) => Err(e),
        }
    }
}

/// What the instruction at `start` of `bytes`, at guest address `pc`,
/// decodes to: the first instruction of the bytes from `start` on.
pub open spec fn decode_spec(bytes: Seq<u8>, start: usize, pc: u64) -> Result<(Seq<Stmt>, int), DecodeError> {
    decode_first(input_tail(bytes, start), pc)
}

/// Decoding depends only on the bytes from the offset on: the instruction at
/// offset `p.len()` of `p + s` decodes as the one at the start of `s`.
pub proof fn lemma_decode_offset_independent(p: Seq<u8>, s: Seq<u8>, pc: u64)
    requires
        p.len() <= usize::MAX,
    ensures
        decode_spec(p + s, p.len() as usize, pc) == decode_spec(s, 0, pc),
{
    assert(input_tail(p + s, p.len() as usize) =~= s);
    assert(input_tail(s, 0) =~= s);
}

/// The x86 ALU opcodes 00-03, 08-0B, 20-23, 28-2B and 30-33 are ADD, OR,
/// AND, SUB and XOR (by bits 3 to 5 of the opcode), at byte size when bit 0
/// is clear: a decoded one combines the register operand with the r/m
/// operand by that operation.
pub proof fn law_alu_opcodes_follow_x86_table(p: PrefixSet, opcode: u8, b: Seq<u8>, cursor: int, pc: u64, s: int)
    requires
        opcode < 0x40,
        opcode % 8 < 4,
        opcode / 8 == 0 || opcode / 8 == 1 || opcode / 8 == 4 || opcode / 8 == 5 || opcode / 8 == 6,
        one_byte_code(p, opcode, b, cursor, pc, s) is Ok,
    ensures
        ({
            let code = one_byte_code(p, opcode, b, cursor, pc, s)->Ok_0.0;
            exists|i: int| 0 < i < code.len() && ((#[trigger] code[i]).op matches Op::BinOp(x) && {
                &&& x.lhs == s as u32 || x.rhs == s as u32
                &&& opcode % 2 == 0 ==> x.size == OpSize::I8
                &&& opcode / 8 == 0 ==> x.op == BinOpKind::Add
                &&& opcode / 8 == 1 ==> x.op == BinOpKind::Or
                &&& opcode / 8 == 4 ==> x.op == BinOpKind::And
                &&& opcode / 8 == 5 ==> x.op == BinOpKind::Sub
                &&& opcode / 8 == 6 ==> x.op == BinOpKind::Xor
            })
        }),
{
    reveal(one_byte_code);
    if false {
    } else if opcode == 0x00 {
        assert(one_byte_class(opcode) == OneByteOpcode::AddRmR8);
        assert(one_byte_code(p, opcode, b, cursor, pc, s) == binop_rm_r_code(BinOpKind::Add, p, b, cursor, OpSize::I8, s));
        lemma_alu_code_combines(BinOpKind::Add, true, p, b, cursor, OpSize::I8, s);
    } else if opcode == 0x01 {
        assert(one_byte_class(opcode) == OneByteOpcode::AddRmR);
        assert(one_byte_code(p, opcode, b, cursor, pc, s) == binop_rm_r_code(BinOpKind::Add, p, b, cursor, spec_operand_size(p), s));
        lemma_alu_code_combines(BinOpKind::Add, true, p, b, cursor, spec_operand_size(p), s);
    } else if opcode == 0x02 {
        assert(one_byte_class(opcode) == OneByteOpcode::AddR8Rm);
        assert(one_byte_code(p, opcode, b, cursor, pc, s) == binop_r_rm_code(BinOpKind::Add, p, b, cursor, OpSize::I8, s));
        lemma_alu_code_combines(BinOpKind::Add, false, p, b, cursor, OpSize::I8, s);
    } else if opcode == 0x03 {
        assert(one_byte_class(opcode) == OneByteOpcode::AddRRm);
        assert(one_byte_code(p, opcode, b, cursor, pc, s) == binop_r_rm_code(BinOpKind::Add, p, b, cursor, spec_operand_size(p), s));
        lemma_alu_code_combines(BinOpKind::Add, false, p, b, cursor, spec_operand_size(p), s);
    } else if opcode == 0x08 {
        assert(one_byte_class(opcode) == OneByteOpcode::OrRmR8);
        assert(one_byte_code(p, opcode, b, cursor, pc, s) == binop_rm_r_code(BinOpKind::Or, p, b, cursor, OpSize::I8, s));
        lemma_alu_code_combines(BinOpKind::Or, true, p, b, cursor, OpSize::I8, s);
    } else if opcode == 0x09 {
        assert(one_byte_class(opcode) == OneByteOpcode::OrRmR);
        assert(one_byte_code(p, opcode, b, cursor, pc, s) == binop_rm_r_code(BinOpKind::Or, p, b, cursor, spec_operand_size(p), s));
        lemma_alu_code_combines(BinOpKind::Or, true, p, b, cursor, spec_operand_size(p), s);
    } else if opcode == 0x0A {
        assert(one_byte_class(opcode) == OneByteOpcode::OrR8Rm);
        assert(one_byte_code(p, opcode, b, cursor, pc, s) == binop_r_rm_code(BinOpKind::Or, p, b, cursor, OpSize::I8, s));
        lemma_alu_code_combines(BinOpKind::Or, false, p, b, cursor, OpSize::I8, s);
    } else if opcode == 0x0B {
        assert(one_byte_class(opcode) == OneByteOpcode::OrRRm);
        assert(one_byte_code(p, opcode, b, cursor, pc, s) == binop_r_rm_code(BinOpKind::Or, p, b, cursor, spec_operand_size(p), s));
        lemma_alu_code_combines(BinOpKind::Or, false, p, b, cursor, spec_operand_size(p), s);
    } else if opcode == 0x20 {
        assert(one_byte_class(opcode) == OneByteOpcode::AndRmR8);
        assert(one_byte_code(p, opcode, b, cursor, pc, s) == binop_rm_r_code(BinOpKind::And, p, b, cursor, OpSize::I8, s));
        lemma_alu_code_combines(BinOpKind::And, true, p, b, cursor, OpSize::I8, s);
    } else if opcode == 0x21 {
        assert(one_byte_class(opcode) == OneByteOpcode::AndRmR);
        assert(one_byte_code(p, opcode, b, cursor, pc, s) == binop_rm_r_code(BinOpKind::And, p, b, cursor, spec_operand_size(p), s));
        lemma_alu_code_combines(BinOpKind::And, true, p, b, cursor, spec_operand_size(p), s);
    } else if opcode == 0x22 {
        assert(one_byte_class(opcode) == OneByteOpcode::AndR8Rm);
        assert(one_byte_code(p, opcode, b, cursor, pc, s) == binop_r_rm_code(BinOpKind::And, p, b, cursor, OpSize::I8, s));
        lemma_alu_code_combines(BinOpKind::And, false, p, b, cursor, OpSize::I8, s);
    } else if opcode == 0x23 {
        assert(one_byte_class(opcode) == OneByteOpcode::AndRRm);
        assert(one_byte_code(p, opcode, b, cursor, pc, s) == binop_r_rm_code(BinOpKind::And, p, b, cursor, spec_operand_size(p), s));
        lemma_alu_code_combines(BinOpKind::And, false, p, b, cursor, spec_operand_size(p), s);
    } else if opcode == 0x28 {
        assert(one_byte_class(opcode) == OneByteOpcode::SubRmR8);
        assert(one_byte_code(p, opcode, b, cursor, pc, s) == binop_rm_r_code(BinOpKind::Sub, p, b, cursor, OpSize::I8, s));
        lemma_alu_code_combines(BinOpKind::Sub, true, p, b, cursor, OpSize::I8, s);
    } else if opcode == 0x29 {
        assert(one_byte_class(opcode) == OneByteOpcode::SubRmR);
        assert(one_byte_code(p, opcode, b, cursor, pc, s) == binop_rm_r_code(BinOpKind::Sub, p, b, cursor, spec_operand_size(p), s));
        lemma_alu_code_combines(BinOpKind::Sub, true, p, b, cursor, spec_operand_size(p), s);
    } else if opcode == 0x2A {
        assert(one_byte_class(opcode) == OneByteOpcode::SubR8Rm);
        assert(one_byte_code(p, opcode, b, cursor, pc, s) == binop_r_rm_code(BinOpKind::Sub, p, b, cursor, OpSize::I8, s));
        lemma_alu_code_combines(BinOpKind::Sub, false, p, b, cursor, OpSize::I8, s);
    } else if opcode == 0x2B {
        assert(one_byte_class(opcode) == OneByteOpcode::SubRRm);
        assert(one_byte_code(p, opcode, b, cursor, pc, s) == binop_r_rm_code(BinOpKind::Sub, p, b, cursor, spec_operand_size(p), s));
        lemma_alu_code_combines(BinOpKind::Sub, false, p, b, cursor, spec_operand_size(p), s);
    } else if opcode == 0x30 {
        assert(one_byte_class(opcode) == OneByteOpcode::XorRmR8);
        assert(one_byte_code(p, opcode, b, cursor, pc, s) == binop_rm_r_code(BinOpKind::Xor, p, b, cursor, OpSize::I8, s));
        lemma_alu_code_combines(BinOpKind::Xor, true, p, b, cursor, OpSize::I8, s);
    } else if opcode == 0x31 {
        assert(one_byte_class(opcode) == OneByteOpcode::XorRmR);
        assert(one_byte_code(p, opcode, b, cursor, pc, s) == binop_rm_r_code(BinOpKind::Xor, p, b, cursor, spec_operand_size(p), s));
        lemma_alu_code_combines(BinOpKind::Xor, true, p, b, cursor, spec_operand_size(p), s);
    } else if opcode == 0x32 {
        assert(one_byte_class(opcode) == OneByteOpcode::XorR8Rm);
        assert(one_byte_code(p, opcode, b, cursor, pc, s) == binop_r_rm_code(BinOpKind::Xor, p, b, cursor, OpSize::I8, s));
        lemma_alu_code_combines(BinOpKind::Xor, false, p, b, cursor, OpSize::I8, s);
    } else if opcode == 0x33 {
        assert(one_byte_class(opcode) == OneByteOpcode::XorRRm);
        assert(one_byte_code(p, opcode, b, cursor, pc, s) == binop_r_rm_code(BinOpKind::Xor, p, b, cursor, spec_operand_size(p), s));
        lemma_alu_code_combines(BinOpKind::Xor, false, p, b, cursor, spec_operand_size(p), s);
    }
}

/// `r` is the decoding `spec` describes.
pub open spec fn decoded_as(r: Result<Decoded, DecodeError>, spec: Result<(Seq<Stmt>, int), DecodeError>) -> bool {
    match spec {
        Ok((code, n)) => r matches Ok(d) && d.stmts@ == code && d.bytes_consumed == n,
        Err(e) => r == Err::<Decoded, DecodeError>(e),
    }
}

/// NOP (90) decodes unless a repeat prefix or REX.W comes with it; `F3 90`
/// alone (PAUSE) decodes too.
pub open spec fn nop_ok(p: PrefixSet) -> bool {
    (p.rep == Some(0xF3u8) && !p.rex.present && !p.lock && p.segment is None && !p.operand_override && !p.addr_override)
        || !(p.rep is Some || p.rex.w)
}

/// Relative jumps and calls take no REX, lock, segment or operand-size
/// prefix.
pub open spec fn rel_branch_prefixes_ok(p: PrefixSet) -> bool {
    !p.rex.present && !p.lock && p.segment is None && !p.operand_override
}

/// A decoding that emits nothing, as a lowering.
pub open spec fn no_code(r: Result<usize, DecodeError>) -> Result<(Seq<Stmt>, int), DecodeError> {
    match r {
        Ok(n) => Ok((Seq::empty(), n as int)),
        Err(e) => Err(e),
    }
}

/// A lowering one byte longer (for an escape byte in front).
pub open spec fn after_escape(r: Result<(Seq<Stmt>, int), DecodeError>) -> Result<(Seq<Stmt>, int), DecodeError> {
    match r {
        Ok((c, n)) => Ok((c, 1 + n)),
        Err(e) => Err(e),
    }
}

/// Relative jumps and calls dispatched by the table: refused with a REX,
/// LOCK, segment or operand-size prefix.
pub open spec fn rel_branch(p: PrefixSet, opcode: u8, code: Result<(Seq<Stmt>, int), DecodeError>) -> Result<(Seq<Stmt>, int), DecodeError> {
    if rel_branch_prefixes_ok(p) {
        code
    } else {
        Err(DecodeError::UnsupportedOpcode(opcode))
    }
}

/// What the 0F 38 opcode after `cursor` (the 38 byte) lowers to when the
/// list holds `s` statements: CRC32 under F2, else MOVBE, for F0/F1.
pub open spec fn three_byte_code(p: PrefixSet, b: Seq<u8>, cursor: int, s: int) -> Result<(Seq<Stmt>, int), DecodeError> {
    if cursor + 1 >= b.len() {
        Err(DecodeError::Truncated)
    } else {
        let op = b[cursor + 1];
        if (op == 0xF0 || op == 0xF1) && p.rep == Some(0xF2u8) {
            crc32c_code(p, op, b, cursor + 1, s)
        } else if op == 0xF0 || op == 0xF1 {
            movbe_code(p, op, b, cursor + 1, s)
        } else {
            Err(DecodeError::UnsupportedOpcode(op))
        }
    }
}

/// What the two-byte opcode whose 0F escape is at `cursor` lowers to, for an
/// instruction at `pc`, when the list holds `s` statements (the length
/// counts from the escape byte).
pub open spec fn two_byte_code(p: PrefixSet, b: Seq<u8>, cursor: int, pc: u64, s: int) -> Result<(Seq<Stmt>, int), DecodeError> {
    if cursor + 1 >= b.len() {
        Err(DecodeError::Truncated)
    } else {
        let op2 = b[cursor + 1];
        let start = cursor + 1;
        let f3 = p.rep == Some(0xF3u8);
        after_escape(if op2 == 0xB0 {
            // The byte form of CMPXCHG, which the table leaves out.
            exchange_compare_code(p, op2, b, start, s)
        } else { match two_byte_class(op2) {
            TwoByteOpcode::DescriptorGroup => descriptor_group_code(p, op2, b, start),
            TwoByteOpcode::SystemGroup => system_group_code(p, op2, b, start, s),
            TwoByteOpcode::SystemTrap => unprefixed(p, op2, seq![trap(TrapKind::Sigill)], 1),
            TwoByteOpcode::SystemTrapRm => rm_trap_code(p, op2, b, start, TrapKind::Sigill, !(0x20 <= op2 <= 0x23)),
            TwoByteOpcode::Syscall => unprefixed(p, op2, seq![eff(Op::Syscall(Syscall))], 1),
            TwoByteOpcode::CacheTrap => cache_trap_code(p, op2),
            TwoByteOpcode::Ud2 => unprefixed(p, op2, seq![trap(TrapKind::Sigill)], 1),
            TwoByteOpcode::Prefetch => no_code(nop_span(op2, b, start, 3, true)),
            TwoByteOpcode::Prefetchw => no_code(nop_span(op2, b, start, 1, true)),
            TwoByteOpcode::MmxStateNoop => unprefixed(p, op2, Seq::empty(), 1),
            TwoByteOpcode::Endbr => no_code(endbr_result(p, op2, b, start)),
            TwoByteOpcode::NopRm => no_code(nop_span(op2, b, start, 0, false)),
            TwoByteOpcode::Rdtsc => unprefixed(p, op2, edx_eax_code(Op::Rdtsc(Rdtsc), s), 1),
            TwoByteOpcode::Cmov => cmov_code(p, op2, b, start, s),
            TwoByteOpcode::MovzxI8 => extend_code(p, b, start, OpSize::I8, spec_operand_size(p), false, s),
            TwoByteOpcode::MovzxI16 => extend_code(p, b, start, OpSize::I16, spec_operand_size(p), false, s),
            TwoByteOpcode::UndefinedRm => rm_trap_code(p, op2, b, start, TrapKind::Sigill, true),
            TwoByteOpcode::ImulRm => binop_r_rm_code(BinOpKind::Mul, p, b, start, spec_operand_size(p), s),
            TwoByteOpcode::MovsxI8 => extend_code(p, b, start, OpSize::I8, spec_operand_size(p), true, s),
            TwoByteOpcode::MovsxI16 => extend_code(p, b, start, OpSize::I16, spec_operand_size(p), true, s),
            TwoByteOpcode::Popcnt => if f3 { count_code(p, 0, b, start, s) } else { Err(DecodeError::UnsupportedOpcode(op2)) },
            TwoByteOpcode::Fence => fence_code(p, op2, b, start),
            TwoByteOpcode::Xadd => xadd_code(p, op2, b, start, s),
            TwoByteOpcode::Movnti => movnti_code(p, op2, b, start, s),
            TwoByteOpcode::Lzcnt => if f3 { count_code(p, 1, b, start, s) } else { bsf_bsr_code(p, op2, b, start, true, s) },
            TwoByteOpcode::Tzcnt => if f3 { count_code(p, 2, b, start, s) } else { bsf_bsr_code(p, op2, b, start, false, s) },
            TwoByteOpcode::Bswap => bswap_code(p, op2, s),
            TwoByteOpcode::Cmpxchg => exchange_compare_code(p, op2, b, start, s),
            TwoByteOpcode::ThreeByte0F38 => three_byte_code(p, b, start, s),
            TwoByteOpcode::CondJumpRel32 => if p.rex.present || f3 || p.operand_override {
                Err(DecodeError::UnsupportedOpcode(op2))
            } else {
                cond_jump_rel32_code(op2, b, cursor, pc)
            },
            TwoByteOpcode::Setcc => setcc_code(p, op2, b, start, s),
            TwoByteOpcode::Cpuid => unprefixed(p, op2, seq![eff(Op::Cpuid(Cpuid))], 1),
            TwoByteOpcode::Unsupported => Err(DecodeError::UnsupportedOpcode(op2)),
        } })
    }
}

/// What the instruction whose one-byte opcode `opcode` is at `cursor` lowers
/// to, for an instruction at `pc`, when the list holds `s` statements: the
/// opcode table's class picks the lowering.
#[verifier::opaque]
pub open spec fn one_byte_code(p: PrefixSet, opcode: u8, b: Seq<u8>, cursor: int, pc: u64, s: int) -> Result<(Seq<Stmt>, int), DecodeError> {
    let size = spec_operand_size(p);
    match one_byte_class(opcode) {
        OneByteOpcode::MovRmR8 => mov_rm_r_code(p, b, cursor, OpSize::I8, s),
        OneByteOpcode::MovRmR => mov_rm_r_code(p, b, cursor, size, s),
        OneByteOpcode::MovR8Rm => mov_r_rm_code(p, b, cursor, OpSize::I8, s),
        OneByteOpcode::MovRRm => mov_r_rm_code(p, b, cursor, size, s),
        OneByteOpcode::PopRm => pop_rm_code(p, b, cursor, s),
        OneByteOpcode::Lea => lea_code(p, b, cursor, s),
        OneByteOpcode::MovMoffsToAcc => mov_moffs_code(p, opcode, b, cursor, s),
        OneByteOpcode::MovAccToMoffs => mov_moffs_code(p, opcode, b, cursor, s),
        OneByteOpcode::Movsb => string_op(p, opcode, movs_code(p, opcode, s)),
        OneByteOpcode::Cmpsb => string_op(p, opcode, string_compare_code(p, opcode, s)),
        OneByteOpcode::Stosb => string_op(p, opcode, stos_code(p, opcode, s)),
        OneByteOpcode::Lodsb => string_op(p, opcode, lods_code(p, opcode, s)),
        OneByteOpcode::Scasb => string_op(p, opcode, scas_code(p, opcode, s)),
        OneByteOpcode::MovR8I8 => mov_r8_i8_code(p, opcode, b, cursor, s),
        OneByteOpcode::MovRI => mov_ri_code(p, opcode, b, cursor, s),
        OneByteOpcode::AddRmR8 => binop_rm_r_code(BinOpKind::Add, p, b, cursor, OpSize::I8, s),
        OneByteOpcode::AddRmR => binop_rm_r_code(BinOpKind::Add, p, b, cursor, size, s),
        OneByteOpcode::AddR8Rm => binop_r_rm_code(BinOpKind::Add, p, b, cursor, OpSize::I8, s),
        OneByteOpcode::AddRRm => binop_r_rm_code(BinOpKind::Add, p, b, cursor, size, s),
        OneByteOpcode::AccImm => acc_imm_code(p, opcode, b, cursor, s),
        OneByteOpcode::AluRmImm => group1_code(p, opcode, b, cursor, pc, s),
        OneByteOpcode::AluRmImm8 => group1_code(p, opcode, b, cursor, pc, s),
        OneByteOpcode::Group2 => group2_code(p, opcode, b, cursor, s),
        OneByteOpcode::SubRmR8 => binop_rm_r_code(BinOpKind::Sub, p, b, cursor, OpSize::I8, s),
        OneByteOpcode::SubRmR => binop_rm_r_code(BinOpKind::Sub, p, b, cursor, size, s),
        OneByteOpcode::SubR8Rm => binop_r_rm_code(BinOpKind::Sub, p, b, cursor, OpSize::I8, s),
        OneByteOpcode::SubRRm => binop_r_rm_code(BinOpKind::Sub, p, b, cursor, size, s),
        OneByteOpcode::AndRmR8 => binop_rm_r_code(BinOpKind::And, p, b, cursor, OpSize::I8, s),
        OneByteOpcode::AndRmR => binop_rm_r_code(BinOpKind::And, p, b, cursor, size, s),
        OneByteOpcode::AndR8Rm => binop_r_rm_code(BinOpKind::And, p, b, cursor, OpSize::I8, s),
        OneByteOpcode::AndRRm => binop_r_rm_code(BinOpKind::And, p, b, cursor, size, s),
        OneByteOpcode::OrRmR8 => binop_rm_r_code(BinOpKind::Or, p, b, cursor, OpSize::I8, s),
        OneByteOpcode::OrRmR => binop_rm_r_code(BinOpKind::Or, p, b, cursor, size, s),
        OneByteOpcode::OrR8Rm => binop_r_rm_code(BinOpKind::Or, p, b, cursor, OpSize::I8, s),
        OneByteOpcode::OrRRm => binop_r_rm_code(BinOpKind::Or, p, b, cursor, size, s),
        OneByteOpcode::XorRmR8 => binop_rm_r_code(BinOpKind::Xor, p, b, cursor, OpSize::I8, s),
        OneByteOpcode::XorRmR => binop_rm_r_code(BinOpKind::Xor, p, b, cursor, size, s),
        OneByteOpcode::XorR8Rm => binop_r_rm_code(BinOpKind::Xor, p, b, cursor, OpSize::I8, s),
        OneByteOpcode::XorRRm => binop_r_rm_code(BinOpKind::Xor, p, b, cursor, size, s),
        OneByteOpcode::CmpRmR8 => reg_rm_flags_code(p, b, cursor, OpSize::I8, 0, s),
        OneByteOpcode::CmpRmR => reg_rm_flags_code(p, b, cursor, size, 0, s),
        OneByteOpcode::CmpR8Rm => reg_rm_flags_code(p, b, cursor, OpSize::I8, 1, s),
        OneByteOpcode::CmpRRm => reg_rm_flags_code(p, b, cursor, size, 1, s),
        OneByteOpcode::TestRmR8 => reg_rm_flags_code(p, b, cursor, OpSize::I8, 2, s),
        OneByteOpcode::TestRmR => reg_rm_flags_code(p, b, cursor, size, 2, s),
        OneByteOpcode::LegacyInvalidTrap => unprefixed(p, opcode, seq![trap(TrapKind::Sigill)], 1),
        OneByteOpcode::LegacyInvalidImm8 => imm8_trap_code(p, opcode, b, cursor, TrapKind::Sigill),
        OneByteOpcode::Movsxd => movsxd_code(p, b, cursor, s),
        OneByteOpcode::ImulRmImm => imul_imm_code(p, 0x69, b, cursor, s),
        OneByteOpcode::ImulRmImm8 => imul_imm_code(p, 0x6B, b, cursor, s),
        OneByteOpcode::MovRmImm => mov_rm_imm_code(p, opcode, b, cursor, s),
        OneByteOpcode::CallRel32 => rel_branch(p, opcode, call_rel32_code(b, cursor, pc)),
        OneByteOpcode::JumpRel8 => rel_branch(p, opcode, jump_rel8_code(b, cursor, pc)),
        OneByteOpcode::JrcxzRel8 => jrcxz_code(p, b, cursor, pc, s),
        OneByteOpcode::LoopRel8 => loop_code(p, b, cursor, pc, s),
        OneByteOpcode::IoTrapImm8 => imm8_trap_code(p, opcode, b, cursor, TrapKind::Sigill),
        OneByteOpcode::JumpRel32 => rel_branch(p, opcode, jump_rel32_code(b, cursor, pc)),
        OneByteOpcode::IoTrapDx => unprefixed(p, opcode, seq![trap(TrapKind::Sigill)], 1),
        OneByteOpcode::Nop => if nop_ok(p) { Ok((Seq::empty(), 1)) } else { Err(DecodeError::UnsupportedOpcode(opcode)) },
        OneByteOpcode::Fwait => unprefixed(p, opcode, Seq::empty(), 1),
        OneByteOpcode::Cld => unprefixed(p, opcode, Seq::empty(), 1),
        OneByteOpcode::XchgAcc => Ok((xchg_acc_code(p, opcode, s), 1)),
        OneByteOpcode::SignExtendAcc => Ok((sign_extend_acc_code(p, s), 1)),
        OneByteOpcode::SignExtendAccToDx => Ok((sign_extend_acc_to_dx_code(p, s), 1)),
        OneByteOpcode::Xlat => xlat_code(p, s),
        OneByteOpcode::X87D9 => no_code(x87_result(p, opcode, b, cursor, 2, 0, 0)),
        OneByteOpcode::X87DB => no_code(x87_result(p, opcode, b, cursor, 4, 2, 3)),
        OneByteOpcode::CondJumpRel8 => if p.rex.present || p.operand_override {
            Err(DecodeError::UnsupportedOpcode(opcode))
        } else {
            cond_jump_rel8_code(b, cursor, pc)
        },
        OneByteOpcode::Xchg => xchg_code(p, opcode, b, cursor, s),
        OneByteOpcode::Ret => ret_code(p),
        OneByteOpcode::RetImm16 => ret_imm16_code(p, b, cursor),
        OneByteOpcode::IretTrap => unprefixed(p, opcode, seq![trap(TrapKind::Sigill)], 1),
        OneByteOpcode::Enter => enter_code(p, b, cursor, s),
        OneByteOpcode::Leave => leave_code(p, s),
        OneByteOpcode::Int3 => unprefixed(p, opcode, seq![trap(TrapKind::Sigtrap)], 1),
        OneByteOpcode::IntImm8 => imm8_trap_code(p, opcode, b, cursor, TrapKind::Sigtrap),
        OneByteOpcode::Group3 => group3_code(p, opcode, b, cursor, s),
        OneByteOpcode::Group4 => group4_code(p, b, cursor, s),
        OneByteOpcode::Group5 => group5_code(p, b, cursor, pc, s),
        OneByteOpcode::PushReg => Ok((push_r_code(p, opcode, s), 1)),
        OneByteOpcode::PushImm => push_imm_code(p, opcode, b, cursor, s),
        OneByteOpcode::PopReg => Ok((pop_r_code(p, opcode, s), 1)),
        OneByteOpcode::Icebp => unprefixed(p, opcode, seq![trap(TrapKind::Sigtrap)], 1),
        OneByteOpcode::Hlt => unprefixed(p, opcode, seq![trap(TrapKind::Sigill)], 1),
        OneByteOpcode::PrivilegedTrap => unprefixed(p, opcode, seq![trap(TrapKind::Sigill)], 1),
        OneByteOpcode::TwoBytePrefix => two_byte_code(p, b, cursor, pc, s),
        OneByteOpcode::Unsupported => Err(DecodeError::UnsupportedOpcode(opcode)),
    }
}

/// The two-byte opcode with its escape at `cursor` was lowered from
/// `before` to `after` with `res`.
pub open spec fn two_byte_lowered(p: PrefixSet, b: Seq<u8>, cursor: usize, pc: u64, before: Seq<Stmt>, after: Seq<Stmt>, res: Result<usize, DecodeError>) -> bool {
    lowered(two_byte_code(p, b, cursor as int, pc, before.len() as int), before, after, res)
}

/// The one-byte opcode at `cursor` was lowered from `before` to `after`
/// with `res`.
pub open spec fn one_byte_lowered(p: PrefixSet, opcode: u8, b: Seq<u8>, cursor: usize, pc: u64, before: Seq<Stmt>, after: Seq<Stmt>, res: Result<usize, DecodeError>) -> bool {
    lowered(one_byte_code(p, opcode, b, cursor as int, pc, before.len() as int), before, after, res)
}

/// A string instruction's lowering: refused unless `string_prefixes_ok`.
pub open spec fn string_op(p: PrefixSet, opcode: u8, code: Seq<Stmt>) -> Result<(Seq<Stmt>, int), DecodeError> {
    if string_prefixes_ok(p) {
        Ok((code, 1))
    } else {
        Err(DecodeError::UnsupportedOpcode(opcode))
    }
}

/// The byte at `i` of `b` is `v`.
pub open spec fn byte_is(b: Seq<u8>, i: usize, v: u8) -> bool {
    b[i as int] == v
}

/// `pc + delta`, wrapping.
fn advance_pc(pc: u64, delta: usize) -> (r: u64)
    ensures
        r == (pc + delta) as u64,
{
    let d = delta as u64;
    assert((pc + d) as u64 == pc.wrapping_add(d)) by (bit_vector);
    pc.wrapping_add(d)
}

/// Decode one x86 instruction at `offset`.
pub fn decode_one(bytes: &[u8], offset: usize) -> (r: Result<Decoded, DecodeError>)
    requires
        bytes.len() <= isize::MAX,
    ensures
        decode_outcome(bytes@, offset, 0, r),
        decoded_as(r, decode_spec(bytes@, offset, 0)),
{
    decode_one_at(bytes, offset, 0)
}

/// Decode one x86 instruction at `offset`, using `instruction_guest_pc` for
/// address forms whose semantics depend on the instruction pointer.
#[verifier::spinoff_prover]
pub fn decode_one_at(bytes: &[u8], offset: usize, instruction_guest_pc: u64) -> (r: Result<Decoded, DecodeError>)
    requires
        bytes.len() <= isize::MAX,
    ensures
        decode_outcome(bytes@, offset, instruction_guest_pc, r),
        decoded_as(r, decode_spec(bytes@, offset, instruction_guest_pc)),
{
    if offset > bytes.len() {
        return Err(DecodeError::Truncated);
    }
    // Everything decoding reads lies from `offset` on.
    let tail = slice_subrange(bytes, offset, bytes.len());
    let (prefixes, cursor) = parse_prefixes(tail, 0);
    let opcode = byte_at(tail, cursor)?;
    let opcode_guest_pc = advance_pc(instruction_guest_pc, cursor);
    let mut stmts: Vec<Stmt> = Vec::new();

    // Dispatch based on opcode
    let consumed = dispatch_one_byte(&prefixes, opcode, tail, cursor, opcode_guest_pc, &mut stmts)?;
    // An operand cut off by the end of the input leaves the instruction
    // incomplete.
    if consumed > tail.len() - cursor {
        return Err(DecodeError::Truncated);
    }

    let total_bytes = cursor + consumed;
    proof {
        if ssa_wf(stmts@) {
        }
        lemma_ssa_defs_before_uses(stmts@);
        let code = one_byte_code(prefixes, opcode, tail@, cursor as int, opcode_guest_pc, 0);
        assert(stmts@ == Seq::<Stmt>::empty() + code->Ok_0.0);
        assert(stmts@ =~= code->Ok_0.0);
    }
    Ok(Decoded {
        stmts,
        bytes_consumed: total_bytes,
    })
}

/// Decode the instruction whose one-byte opcode is at `cursor`, by the
/// opcode table.
#[verifier::spinoff_prover]
fn dispatch_one_byte(
    prefixes: &PrefixSet,
    opcode: u8,
    bytes: &[u8],
    cursor: usize,
    opcode_guest_pc: u64,
    stmts: &mut Vec<Stmt>,
) -> (res: Result<usize, DecodeError>)
    requires
        cursor < bytes.len(),
        byte_is(bytes@, cursor, opcode),
        bytes.len() <= isize::MAX,
        room(old(stmts)@),
        ssa_wf(old(stmts)@),
    ensures
        ssa_wf(final(stmts)@),
        old(stmts).len() <= final(stmts).len() <= old(stmts).len() + 0x100,
        res matches Ok(n) ==> 1 <= n <= 17,
        one_byte_class(opcode) == OneByteOpcode::Unsupported ==> res == Err::<usize, DecodeError>(DecodeError::UnsupportedOpcode(opcode)),
        one_byte_lowered(*prefixes, opcode, bytes@, cursor, opcode_guest_pc, old(stmts)@, final(stmts)@, res),
{
    let class = tables::classify_one_byte(opcode);
    match class {
        OneByteOpcode::MovRmR8 | OneByteOpcode::MovRmR | OneByteOpcode::MovR8Rm | OneByteOpcode::MovRRm | OneByteOpcode::PopRm | OneByteOpcode::Lea | OneByteOpcode::MovMoffsToAcc | OneByteOpcode::MovAccToMoffs | OneByteOpcode::MovR8I8 | OneByteOpcode::MovRI | OneByteOpcode::Movsxd | OneByteOpcode::MovRmImm | OneByteOpcode::XchgAcc | OneByteOpcode::SignExtendAcc | OneByteOpcode::SignExtendAccToDx | OneByteOpcode::Xlat | OneByteOpcode::Xchg => dispatch_moves(prefixes, opcode, class, bytes, cursor, opcode_guest_pc, stmts),
        OneByteOpcode::AddRmR8 | OneByteOpcode::AddRmR | OneByteOpcode::AddR8Rm | OneByteOpcode::AddRRm | OneByteOpcode::AccImm | OneByteOpcode::AluRmImm | OneByteOpcode::AluRmImm8 | OneByteOpcode::Group2 | OneByteOpcode::SubRmR8 | OneByteOpcode::SubRmR | OneByteOpcode::SubR8Rm | OneByteOpcode::SubRRm | OneByteOpcode::AndRmR8 | OneByteOpcode::AndRmR | OneByteOpcode::AndR8Rm | OneByteOpcode::AndRRm | OneByteOpcode::OrRmR8 | OneByteOpcode::OrRmR | OneByteOpcode::OrR8Rm | OneByteOpcode::OrRRm | OneByteOpcode::XorRmR8 | OneByteOpcode::XorRmR | OneByteOpcode::XorR8Rm | OneByteOpcode::XorRRm | OneByteOpcode::CmpRmR8 | OneByteOpcode::CmpRmR | OneByteOpcode::CmpR8Rm | OneByteOpcode::CmpRRm | OneByteOpcode::TestRmR8 | OneByteOpcode::TestRmR | OneByteOpcode::ImulRmImm | OneByteOpcode::ImulRmImm8 | OneByteOpcode::Group3 | OneByteOpcode::Group4 => dispatch_alu(prefixes, opcode, class, bytes, cursor, opcode_guest_pc, stmts),
        OneByteOpcode::CallRel32 | OneByteOpcode::JumpRel8 | OneByteOpcode::JrcxzRel8 | OneByteOpcode::LoopRel8 | OneByteOpcode::JumpRel32 | OneByteOpcode::CondJumpRel8 | OneByteOpcode::Ret | OneByteOpcode::RetImm16 | OneByteOpcode::Enter | OneByteOpcode::Leave | OneByteOpcode::Group5 | OneByteOpcode::PushReg | OneByteOpcode::PushImm | OneByteOpcode::PopReg => dispatch_flow(prefixes, opcode, class, bytes, cursor, opcode_guest_pc, stmts),
        OneByteOpcode::Movsb | OneByteOpcode::Cmpsb | OneByteOpcode::Stosb | OneByteOpcode::Lodsb | OneByteOpcode::Scasb | OneByteOpcode::LegacyInvalidTrap | OneByteOpcode::LegacyInvalidImm8 | OneByteOpcode::IoTrapImm8 | OneByteOpcode::IoTrapDx | OneByteOpcode::Nop | OneByteOpcode::Fwait | OneByteOpcode::Cld | OneByteOpcode::X87D9 | OneByteOpcode::X87DB | OneByteOpcode::IretTrap | OneByteOpcode::Int3 | OneByteOpcode::IntImm8 | OneByteOpcode::Icebp | OneByteOpcode::Hlt | OneByteOpcode::PrivilegedTrap | OneByteOpcode::TwoBytePrefix | OneByteOpcode::Unsupported => dispatch_misc(prefixes, opcode, class, bytes, cursor, opcode_guest_pc, stmts),
    }
}

/// Decode a one-byte opcode of class `class` among the moves, exchanges and extensions.
#[verifier::spinoff_prover]
#[verifier::rlimit(60)]
fn dispatch_moves(
    prefixes: &PrefixSet,
    opcode: u8,
    class: OneByteOpcode,
    bytes: &[u8],
    cursor: usize,
    opcode_guest_pc: u64,
    stmts: &mut Vec<Stmt>,
) -> (res: Result<usize, DecodeError>)
    requires
        cursor < bytes.len(),
        byte_is(bytes@, cursor, opcode),
        bytes.len() <= isize::MAX,
        room(old(stmts)@),
        ssa_wf(old(stmts)@),
        class == one_byte_class(opcode),
        (class == OneByteOpcode::MovRmR8 || class == OneByteOpcode::MovRmR || class == OneByteOpcode::MovR8Rm || class == OneByteOpcode::MovRRm || class == OneByteOpcode::PopRm || class == OneByteOpcode::Lea || class == OneByteOpcode::MovMoffsToAcc || class == OneByteOpcode::MovAccToMoffs || class == OneByteOpcode::MovR8I8 || class == OneByteOpcode::MovRI || class == OneByteOpcode::Movsxd || class == OneByteOpcode::MovRmImm || class == OneByteOpcode::XchgAcc || class == OneByteOpcode::SignExtendAcc || class == OneByteOpcode::SignExtendAccToDx || class == OneByteOpcode::Xlat || class == OneByteOpcode::Xchg),
    ensures
        ssa_wf(final(stmts)@),
        old(stmts).len() <= final(stmts).len() <= old(stmts).len() + 0x100,
        res matches Ok(n) ==> 1 <= n <= 17,
        one_byte_lowered(*prefixes, opcode, bytes@, cursor, opcode_guest_pc, old(stmts)@, final(stmts)@, res),
        one_byte_class(opcode) == OneByteOpcode::Unsupported ==> res == Err::<usize, DecodeError>(DecodeError::UnsupportedOpcode(opcode)),
{
    proof {
        reveal(one_byte_code);
    }
    let r = match class {
        OneByteOpcode::MovRmR8 => {
            decode_mov_rm_r_with_size(prefixes, bytes, cursor, stmts, OpSize::I8)
        }
        OneByteOpcode::MovRmR => decode_mov_rm_r(prefixes, bytes, cursor, stmts),
        OneByteOpcode::MovR8Rm => {
            decode_mov_r_rm_with_size(prefixes, bytes, cursor, stmts, OpSize::I8)
        }
        OneByteOpcode::MovRRm => decode_mov_r_rm(prefixes, bytes, cursor, stmts),
        OneByteOpcode::PopRm => decode_pop_rm(prefixes, bytes, cursor, stmts),
        OneByteOpcode::Lea => decode_lea(prefixes, bytes, cursor, stmts),
        OneByteOpcode::MovMoffsToAcc => {
            decode_mov_moffs(prefixes, opcode, bytes, cursor, stmts)
        }
        OneByteOpcode::MovAccToMoffs => {
            decode_mov_moffs(prefixes, opcode, bytes, cursor, stmts)
        }
        OneByteOpcode::MovR8I8 => {
            decode_mov_r8_i8(prefixes, opcode, bytes, cursor, stmts)
        }
        OneByteOpcode::MovRI => {
            decode_mov_ri(prefixes, opcode, bytes, cursor, stmts)
        }
        OneByteOpcode::Movsxd => decode_movsxd(prefixes, bytes, cursor, stmts),
        OneByteOpcode::MovRmImm => {
            decode_mov_rm_imm(prefixes, opcode, bytes, cursor, stmts)
        }
        OneByteOpcode::XchgAcc => Ok(decode_xchg_acc(prefixes, opcode, stmts)),
        OneByteOpcode::SignExtendAcc => Ok(decode_sign_extend_acc(prefixes, stmts)),
        OneByteOpcode::SignExtendAccToDx => {
            Ok(decode_sign_extend_acc_to_dx(prefixes, stmts))
        }
        OneByteOpcode::Xlat => decode_xlat(prefixes, stmts),
        OneByteOpcode::Xchg => decode_xchg(prefixes, opcode, bytes, cursor, stmts),
        _ => Err(DecodeError::UnsupportedOpcode(opcode)),
    };
    proof {
        if ssa_wf(stmts@) {
        }
        lemma_ssa_defs_before_uses(stmts@);
    }
    r
}

/// Decode a one-byte opcode of class `class` among the arithmetic, logic, compare and test.
#[verifier::spinoff_prover]
#[verifier::rlimit(60)]
fn dispatch_alu(
    prefixes: &PrefixSet,
    opcode: u8,
    class: OneByteOpcode,
    bytes: &[u8],
    cursor: usize,
    opcode_guest_pc: u64,
    stmts: &mut Vec<Stmt>,
) -> (res: Result<usize, DecodeError>)
    requires
        cursor < bytes.len(),
        byte_is(bytes@, cursor, opcode),
        bytes.len() <= isize::MAX,
        room(old(stmts)@),
        ssa_wf(old(stmts)@),
        class == one_byte_class(opcode),
        (class == OneByteOpcode::AddRmR8 || class == OneByteOpcode::AddRmR || class == OneByteOpcode::AddR8Rm || class == OneByteOpcode::AddRRm || class == OneByteOpcode::AccImm || class == OneByteOpcode::AluRmImm || class == OneByteOpcode::AluRmImm8 || class == OneByteOpcode::Group2 || class == OneByteOpcode::SubRmR8 || class == OneByteOpcode::SubRmR || class == OneByteOpcode::SubR8Rm || class == OneByteOpcode::SubRRm || class == OneByteOpcode::AndRmR8 || class == OneByteOpcode::AndRmR || class == OneByteOpcode::AndR8Rm || class == OneByteOpcode::AndRRm || class == OneByteOpcode::OrRmR8 || class == OneByteOpcode::OrRmR || class == OneByteOpcode::OrR8Rm || class == OneByteOpcode::OrRRm || class == OneByteOpcode::XorRmR8 || class == OneByteOpcode::XorRmR || class == OneByteOpcode::XorR8Rm || class == OneByteOpcode::XorRRm || class == OneByteOpcode::CmpRmR8 || class == OneByteOpcode::CmpRmR || class == OneByteOpcode::CmpR8Rm || class == OneByteOpcode::CmpRRm || class == OneByteOpcode::TestRmR8 || class == OneByteOpcode::TestRmR || class == OneByteOpcode::ImulRmImm || class == OneByteOpcode::ImulRmImm8 || class == OneByteOpcode::Group3 || class == OneByteOpcode::Group4),
    ensures
        ssa_wf(final(stmts)@),
        old(stmts).len() <= final(stmts).len() <= old(stmts).len() + 0x100,
        res matches Ok(n) ==> 1 <= n <= 17,
        one_byte_lowered(*prefixes, opcode, bytes@, cursor, opcode_guest_pc, old(stmts)@, final(stmts)@, res),
        one_byte_class(opcode) == OneByteOpcode::Unsupported ==> res == Err::<usize, DecodeError>(DecodeError::UnsupportedOpcode(opcode)),
{
    proof {
        reveal(one_byte_code);
    }
    let r = match class {
        OneByteOpcode::AddRmR8 => decode_binop_rm_r_with_size(
            BinOpKind::Add,
            prefixes,
            bytes,
            cursor,
            stmts,
            OpSize::I8,
        ),
        OneByteOpcode::AddRmR => {
            decode_binop_rm_r(BinOpKind::Add, prefixes, bytes, cursor, stmts)
        }
        OneByteOpcode::AddR8Rm => decode_binop_r_rm_with_size(
            BinOpKind::Add,
            prefixes,
            bytes,
            cursor,
            stmts,
            OpSize::I8,
        ),
        OneByteOpcode::AddRRm => {
            decode_binop_r_rm(BinOpKind::Add, prefixes, bytes, cursor, stmts)
        }
        OneByteOpcode::AccImm => {
            decode_acc_imm(prefixes, opcode, bytes, cursor, stmts)
        }
        OneByteOpcode::AluRmImm => decode_alu_rm_imm(
            prefixes,
            opcode,
            bytes,
            cursor,
            opcode_guest_pc,
            stmts,
        ),
        OneByteOpcode::AluRmImm8 => decode_alu_rm_imm(
            prefixes,
            opcode,
            bytes,
            cursor,
            opcode_guest_pc,
            stmts,
        ),
        OneByteOpcode::Group2 => {
            decode_group2(prefixes, opcode, bytes, cursor, stmts)
        }
        OneByteOpcode::SubRmR8 => decode_binop_rm_r_with_size(
            BinOpKind::Sub,
            prefixes,
            bytes,
            cursor,
            stmts,
            OpSize::I8,
        ),
        OneByteOpcode::SubRmR => {
            decode_binop_rm_r(BinOpKind::Sub, prefixes, bytes, cursor, stmts)
        }
        OneByteOpcode::SubR8Rm => decode_binop_r_rm_with_size(
            BinOpKind::Sub,
            prefixes,
            bytes,
            cursor,
            stmts,
            OpSize::I8,
        ),
        OneByteOpcode::SubRRm => {
            decode_binop_r_rm(BinOpKind::Sub, prefixes, bytes, cursor, stmts)
        }
        OneByteOpcode::AndRmR8 => decode_binop_rm_r_with_size(
            BinOpKind::And,
            prefixes,
            bytes,
            cursor,
            stmts,
            OpSize::I8,
        ),
        OneByteOpcode::AndRmR => {
            decode_binop_rm_r(BinOpKind::And, prefixes, bytes, cursor, stmts)
        }
        OneByteOpcode::AndR8Rm => decode_binop_r_rm_with_size(
            BinOpKind::And,
            prefixes,
            bytes,
            cursor,
            stmts,
            OpSize::I8,
        ),
        OneByteOpcode::AndRRm => {
            decode_binop_r_rm(BinOpKind::And, prefixes, bytes, cursor, stmts)
        }
        OneByteOpcode::OrRmR8 => decode_binop_rm_r_with_size(
            BinOpKind::Or,
            prefixes,
            bytes,
            cursor,
            stmts,
            OpSize::I8,
        ),
        OneByteOpcode::OrRmR => {
            decode_binop_rm_r(BinOpKind::Or, prefixes, bytes, cursor, stmts)
        }
        OneByteOpcode::OrR8Rm => decode_binop_r_rm_with_size(
            BinOpKind::Or,
            prefixes,
            bytes,
            cursor,
            stmts,
            OpSize::I8,
        ),
        OneByteOpcode::OrRRm => {
            decode_binop_r_rm(BinOpKind::Or, prefixes, bytes, cursor, stmts)
        }
        OneByteOpcode::XorRmR8 => decode_binop_rm_r_with_size(
            BinOpKind::Xor,
            prefixes,
            bytes,
            cursor,
            stmts,
            OpSize::I8,
        ),
        OneByteOpcode::XorRmR => {
            decode_binop_rm_r(BinOpKind::Xor, prefixes, bytes, cursor, stmts)
        }
        OneByteOpcode::XorR8Rm => decode_binop_r_rm_with_size(
            BinOpKind::Xor,
            prefixes,
            bytes,
            cursor,
            stmts,
            OpSize::I8,
        ),
        OneByteOpcode::XorRRm => {
            decode_binop_r_rm(BinOpKind::Xor, prefixes, bytes, cursor, stmts)
        }
        OneByteOpcode::CmpRmR8 => {
            decode_cmp_rm_r_with_size(prefixes, bytes, cursor, stmts, OpSize::I8)
        }
        OneByteOpcode::CmpRmR => decode_cmp_rm_r(prefixes, bytes, cursor, stmts),
        OneByteOpcode::CmpR8Rm => {
            decode_cmp_r_rm_with_size(prefixes, bytes, cursor, stmts, OpSize::I8)
        }
        OneByteOpcode::CmpRRm => decode_cmp_r_rm_with_size(
            prefixes,
            bytes,
            cursor,
            stmts,
            operand_size(prefixes, true),
        ),
        OneByteOpcode::TestRmR8 => {
            decode_test_rm_r_with_size(prefixes, bytes, cursor, stmts, OpSize::I8)
        }
        OneByteOpcode::TestRmR => decode_test_rm_r(prefixes, bytes, cursor, stmts),
        OneByteOpcode::ImulRmImm => {
            decode_imul_imm(prefixes, 0x69, bytes, cursor, stmts)
        }
        OneByteOpcode::ImulRmImm8 => {
            decode_imul_imm(prefixes, 0x6B, bytes, cursor, stmts)
        }
        OneByteOpcode::Group3 => {
            decode_group3(prefixes, opcode, bytes, cursor, stmts)
        }
        OneByteOpcode::Group4 => decode_group4(prefixes, bytes, cursor, stmts),
        _ => Err(DecodeError::UnsupportedOpcode(opcode)),
    };
    proof {
        if ssa_wf(stmts@) {
        }
        lemma_ssa_defs_before_uses(stmts@);
    }
    r
}

/// Decode a one-byte opcode of class `class` among the jumps, calls, returns and stack operations.
#[verifier::spinoff_prover]
#[verifier::rlimit(60)]
fn dispatch_flow(
    prefixes: &PrefixSet,
    opcode: u8,
    class: OneByteOpcode,
    bytes: &[u8],
    cursor: usize,
    opcode_guest_pc: u64,
    stmts: &mut Vec<Stmt>,
) -> (res: Result<usize, DecodeError>)
    requires
        cursor < bytes.len(),
        byte_is(bytes@, cursor, opcode),
        bytes.len() <= isize::MAX,
        room(old(stmts)@),
        ssa_wf(old(stmts)@),
        class == one_byte_class(opcode),
        (class == OneByteOpcode::CallRel32 || class == OneByteOpcode::JumpRel8 || class == OneByteOpcode::JrcxzRel8 || class == OneByteOpcode::LoopRel8 || class == OneByteOpcode::JumpRel32 || class == OneByteOpcode::CondJumpRel8 || class == OneByteOpcode::Ret || class == OneByteOpcode::RetImm16 || class == OneByteOpcode::Enter || class == OneByteOpcode::Leave || class == OneByteOpcode::Group5 || class == OneByteOpcode::PushReg || class == OneByteOpcode::PushImm || class == OneByteOpcode::PopReg),
    ensures
        ssa_wf(final(stmts)@),
        old(stmts).len() <= final(stmts).len() <= old(stmts).len() + 0x100,
        res matches Ok(n) ==> 1 <= n <= 17,
        one_byte_lowered(*prefixes, opcode, bytes@, cursor, opcode_guest_pc, old(stmts)@, final(stmts)@, res),
        one_byte_class(opcode) == OneByteOpcode::Unsupported ==> res == Err::<usize, DecodeError>(DecodeError::UnsupportedOpcode(opcode)),
{
    proof {
        reveal(one_byte_code);
    }
    let r = match class {
        OneByteOpcode::CallRel32 => {
            if prefixes.rex.present || prefixes.lock || prefixes.segment.is_some() {
                return Err(DecodeError::UnsupportedOpcode(opcode));
            }
            if prefixes.operand_override {
                return Err(DecodeError::UnsupportedOpcode(opcode));
            }
            decode_call_rel32(prefixes, bytes, cursor, opcode_guest_pc, stmts)
        }
        OneByteOpcode::JumpRel8 => {
            if prefixes.rex.present || prefixes.lock || prefixes.segment.is_some() {
                return Err(DecodeError::UnsupportedOpcode(opcode));
            }
            if prefixes.operand_override {
                return Err(DecodeError::UnsupportedOpcode(opcode));
            }
            decode_jump_rel8(prefixes, bytes, cursor, opcode_guest_pc, stmts)
        }
        OneByteOpcode::JrcxzRel8 => {
            decode_jrcxz_rel8(prefixes, bytes, cursor, opcode_guest_pc, stmts)
        }
        OneByteOpcode::LoopRel8 => {
            decode_loop_rel8(prefixes, bytes, cursor, opcode_guest_pc, stmts)
        }
        OneByteOpcode::JumpRel32 => {
            if prefixes.rex.present || prefixes.lock || prefixes.segment.is_some() {
                return Err(DecodeError::UnsupportedOpcode(opcode));
            }
            if prefixes.operand_override {
                return Err(DecodeError::UnsupportedOpcode(opcode));
            }
            decode_jump_rel32(prefixes, bytes, cursor, opcode_guest_pc, stmts)
        }
        OneByteOpcode::CondJumpRel8 => {
            if prefixes.rex.present || prefixes.operand_override {
                return Err(DecodeError::UnsupportedOpcode(opcode));
            }
            decode_cond_jump_rel8(prefixes, bytes, cursor, opcode_guest_pc, stmts)
        }
        OneByteOpcode::Ret => decode_ret(prefixes, bytes, cursor, stmts),
        OneByteOpcode::RetImm16 => decode_ret_imm16(prefixes, bytes, cursor, stmts),
        OneByteOpcode::Enter => decode_enter(prefixes, bytes, cursor, stmts),
        OneByteOpcode::Leave => decode_leave(prefixes, stmts),
        OneByteOpcode::Group5 => {
            decode_group5(prefixes, bytes, cursor, opcode_guest_pc, stmts)
        }
        OneByteOpcode::PushReg => Ok(decode_push_r(prefixes, opcode, stmts)),
        OneByteOpcode::PushImm => {
            decode_push_imm(prefixes, opcode, bytes, cursor, stmts)
        }
        OneByteOpcode::PopReg => Ok(decode_pop_r(prefixes, opcode, stmts)),
        _ => Err(DecodeError::UnsupportedOpcode(opcode)),
    };
    proof {
        if ssa_wf(stmts@) {
        }
        lemma_ssa_defs_before_uses(stmts@);
    }
    r
}

/// Decode a one-byte opcode of class `class` among the strings, traps, no-ops, x87 forms and the two-byte escape.
#[verifier::spinoff_prover]
#[verifier::rlimit(60)]
fn dispatch_misc(
    prefixes: &PrefixSet,
    opcode: u8,
    class: OneByteOpcode,
    bytes: &[u8],
    cursor: usize,
    opcode_guest_pc: u64,
    stmts: &mut Vec<Stmt>,
) -> (res: Result<usize, DecodeError>)
    requires
        cursor < bytes.len(),
        byte_is(bytes@, cursor, opcode),
        bytes.len() <= isize::MAX,
        room(old(stmts)@),
        ssa_wf(old(stmts)@),
        class == one_byte_class(opcode),
        (class == OneByteOpcode::Movsb || class == OneByteOpcode::Cmpsb || class == OneByteOpcode::Stosb || class == OneByteOpcode::Lodsb || class == OneByteOpcode::Scasb || class == OneByteOpcode::LegacyInvalidTrap || class == OneByteOpcode::LegacyInvalidImm8 || class == OneByteOpcode::IoTrapImm8 || class == OneByteOpcode::IoTrapDx || class == OneByteOpcode::Nop || class == OneByteOpcode::Fwait || class == OneByteOpcode::Cld || class == OneByteOpcode::X87D9 || class == OneByteOpcode::X87DB || class == OneByteOpcode::IretTrap || class == OneByteOpcode::Int3 || class == OneByteOpcode::IntImm8 || class == OneByteOpcode::Icebp || class == OneByteOpcode::Hlt || class == OneByteOpcode::PrivilegedTrap || class == OneByteOpcode::TwoBytePrefix || class == OneByteOpcode::Unsupported),
    ensures
        ssa_wf(final(stmts)@),
        old(stmts).len() <= final(stmts).len() <= old(stmts).len() + 0x100,
        res matches Ok(n) ==> 1 <= n <= 17,
        one_byte_lowered(*prefixes, opcode, bytes@, cursor, opcode_guest_pc, old(stmts)@, final(stmts)@, res),
        one_byte_class(opcode) == OneByteOpcode::Unsupported ==> res == Err::<usize, DecodeError>(DecodeError::UnsupportedOpcode(opcode)),
{
    proof {
        reveal(one_byte_code);
    }
    let r = match class {
        OneByteOpcode::Movsb => decode_movs(prefixes, opcode, stmts),
        OneByteOpcode::Cmpsb => decode_cmps(prefixes, opcode, stmts),
        OneByteOpcode::Stosb => decode_stos(prefixes, opcode, stmts),
        OneByteOpcode::Lodsb => decode_lods(prefixes, opcode, stmts),
        OneByteOpcode::Scasb => decode_scas(prefixes, opcode, stmts),
        OneByteOpcode::LegacyInvalidTrap => {
            decode_one_byte_trap(prefixes, opcode, TrapKind::Sigill, stmts)
        }
        OneByteOpcode::LegacyInvalidImm8 => {
            decode_legacy_invalid_imm8(prefixes, opcode, bytes, cursor, stmts)
        }
        OneByteOpcode::IoTrapImm8 => {
            decode_io_trap_imm8(prefixes, opcode, bytes, cursor, stmts)
        }
        OneByteOpcode::IoTrapDx => {
            decode_one_byte_trap(prefixes, opcode, TrapKind::Sigill, stmts)
        }
        OneByteOpcode::Nop => {
            if prefixes.rep == Some(0xF3)
                && !prefixes.rex.present
                && !prefixes.lock
                && prefixes.segment.is_none()
                && !prefixes.operand_override
                && !prefixes.addr_override
            {
                Ok(1)
            } else if prefixes.rep.is_some() || prefixes.rex.w {
                return Err(DecodeError::UnsupportedOpcode(opcode));
            } else {
                Ok(1)
            }
        }
        OneByteOpcode::Fwait => {
            if prefixes.rex.present
                || prefixes.lock
                || prefixes.segment.is_some()
                || prefixes.rep.is_some()
                || prefixes.operand_override
                || prefixes.addr_override
            {
                return Err(DecodeError::UnsupportedOpcode(opcode));
            }
            Ok(1)
        }
        OneByteOpcode::Cld => {
            if prefixes.rex.present
                || prefixes.lock
                || prefixes.segment.is_some()
                || prefixes.rep.is_some()
                || prefixes.operand_override
                || prefixes.addr_override
            {
                return Err(DecodeError::UnsupportedOpcode(opcode));
            }
            Ok(1)
        }
        OneByteOpcode::X87D9 => decode_x87_d9(prefixes, opcode, bytes, cursor),
        OneByteOpcode::X87DB => decode_x87_db(prefixes, opcode, bytes, cursor),
        OneByteOpcode::IretTrap => {
            decode_one_byte_trap(prefixes, opcode, TrapKind::Sigill, stmts)
        }
        OneByteOpcode::Int3 => {
            decode_one_byte_trap(prefixes, opcode, TrapKind::Sigtrap, stmts)
        }
        OneByteOpcode::IntImm8 => {
            decode_int_imm8(prefixes, opcode, bytes, cursor, stmts)
        }
        OneByteOpcode::Icebp => {
            decode_one_byte_trap(prefixes, opcode, TrapKind::Sigtrap, stmts)
        }
        OneByteOpcode::Hlt => {
            decode_one_byte_trap(prefixes, opcode, TrapKind::Sigill, stmts)
        }
        OneByteOpcode::PrivilegedTrap => {
            decode_one_byte_trap(prefixes, opcode, TrapKind::Sigill, stmts)
        }
        OneByteOpcode::TwoBytePrefix => {
            decode_two_byte(prefixes, bytes, cursor, opcode_guest_pc, stmts)
        }
        OneByteOpcode::Unsupported => {
            return Err(DecodeError::UnsupportedOpcode(opcode))
        }
        _ => Err(DecodeError::UnsupportedOpcode(opcode)),
    };
    proof {
        if ssa_wf(stmts@) {
        }
        lemma_ssa_defs_before_uses(stmts@);
    }
    r
}


#[verifier::spinoff_prover]
pub(crate) fn decode_two_byte(
    prefixes: &PrefixSet,
    bytes: &[u8],
    cursor: usize,
    opcode_guest_pc: u64,
    stmts: &mut Vec<Stmt>,
) -> (res: Result<usize, DecodeError>)
    requires
        cursor < bytes.len(),
        bytes.len() <= isize::MAX,
        room(old(stmts)@),
        ssa_wf(old(stmts)@),
    ensures
        ssa_wf(final(stmts)@),
        old(stmts).len() <= final(stmts).len() <= old(stmts).len() + 0x100,
        res matches Ok(n) ==> 1 <= n <= 17,
        two_byte_lowered(*prefixes, bytes@, cursor, opcode_guest_pc, old(stmts)@, final(stmts)@, res),
{
    let op2 = byte_at(bytes, cursor + 1)?;
    let start = cursor + 1;
    // CMPXCHG r/m8, r8 (0F B0) shares the word form's handler; the opcode
    // table lists only the word form.
    let consumed_after_escape = if op2 == 0xB0 {
        decode_cmpxchg(prefixes, op2, bytes, start, stmts)
    } else { match tables::classify_two_byte(op2) {
        tables::TwoByteOpcode::DescriptorGroup => {
            decode_descriptor_group(prefixes, op2, bytes, start, stmts)
        }
        tables::TwoByteOpcode::SystemGroup => {
            decode_system_group(prefixes, op2, bytes, start, stmts)
        }
        tables::TwoByteOpcode::SystemTrap => {
            decode_two_byte_trap(prefixes, op2, TrapKind::Sigill, stmts)
        }
        tables::TwoByteOpcode::SystemTrapRm => {
            if op2 == 0x20 || op2 == 0x21 || op2 == 0x22 || op2 == 0x23 {
                decode_two_byte_rm_trap(prefixes, op2, bytes, start, TrapKind::Sigill, stmts)
            } else {
                decode_two_byte_any_rm_trap(prefixes, op2, bytes, start, TrapKind::Sigill, stmts)
            }
        }
        tables::TwoByteOpcode::Syscall => decode_syscall(prefixes, op2, stmts),
        tables::TwoByteOpcode::CacheTrap => decode_cache_trap(prefixes, op2, stmts),
        tables::TwoByteOpcode::Ud2 => decode_ud2(prefixes, op2, stmts),
        tables::TwoByteOpcode::Prefetch => decode_prefetch(op2, bytes, start),
        tables::TwoByteOpcode::Prefetchw => decode_prefetchw(op2, bytes, start),
        tables::TwoByteOpcode::MmxStateNoop => decode_mmx_state_noop(prefixes, op2),
        tables::TwoByteOpcode::Endbr => decode_endbr(prefixes, op2, bytes, start),
        tables::TwoByteOpcode::NopRm => decode_nop_rm(op2, bytes, start),
        tables::TwoByteOpcode::Rdtsc => decode_rdtsc(prefixes, op2, stmts),
        tables::TwoByteOpcode::Cmov => decode_cmov(prefixes, op2, bytes, start, stmts),
        tables::TwoByteOpcode::MovzxI8 => decode_movzx(prefixes, bytes, start, stmts, OpSize::I8),
        tables::TwoByteOpcode::MovzxI16 => decode_movzx(prefixes, bytes, start, stmts, OpSize::I16),
        tables::TwoByteOpcode::UndefinedRm => {
            decode_two_byte_any_rm_trap(prefixes, op2, bytes, start, TrapKind::Sigill, stmts)
        }
        tables::TwoByteOpcode::ImulRm => {
            decode_binop_r_rm(BinOpKind::Mul, prefixes, bytes, start, stmts)
        }
        tables::TwoByteOpcode::MovsxI8 => decode_movsx(prefixes, bytes, start, stmts, OpSize::I8),
        tables::TwoByteOpcode::MovsxI16 => decode_movsx(prefixes, bytes, start, stmts, OpSize::I16),
        tables::TwoByteOpcode::Popcnt => {
            if prefixes.rep == Some(0xF3) {
                decode_popcnt(prefixes, bytes, start, stmts)
            } else {
                Err(DecodeError::UnsupportedOpcode(op2))
            }
        }
        tables::TwoByteOpcode::Fence => decode_fence(prefixes, op2, bytes, start, stmts),
        tables::TwoByteOpcode::Xadd => decode_xadd(prefixes, op2, bytes, start, stmts),
        tables::TwoByteOpcode::Movnti => decode_movnti(prefixes, op2, bytes, start, stmts),
        tables::TwoByteOpcode::Lzcnt => {
            if prefixes.rep == Some(0xF3) {
                decode_lzcnt(prefixes, bytes, start, stmts)
            } else {
                // Bare 0F BD is BSR (F3 makes it LZCNT).
                decode_bsf_bsr(prefixes, op2, bytes, start, true, stmts)
            }
        }
        tables::TwoByteOpcode::Tzcnt => {
            if prefixes.rep == Some(0xF3) {
                decode_tzcnt(prefixes, bytes, start, stmts)
            } else {
                // Bare 0F BC is BSF (F3 makes it TZCNT).
                decode_bsf_bsr(prefixes, op2, bytes, start, false, stmts)
            }
        }
        tables::TwoByteOpcode::Bswap => decode_bswap(prefixes, op2, stmts),
        tables::TwoByteOpcode::Cmpxchg => decode_cmpxchg(prefixes, op2, bytes, start, stmts),
        tables::TwoByteOpcode::ThreeByte0F38 => {
            decode_three_byte_0f38(prefixes, bytes, start, stmts)
        }
        tables::TwoByteOpcode::CondJumpRel32 => {
            if prefixes.rex.present || prefixes.rep == Some(0xF3) || prefixes.operand_override {
                Err(DecodeError::UnsupportedOpcode(op2))
            } else {
                decode_cond_jump_rel32(op2, bytes, cursor, opcode_guest_pc, stmts)
            }
        }
        tables::TwoByteOpcode::Setcc => decode_setcc(prefixes, op2, bytes, start, stmts),
        tables::TwoByteOpcode::Cpuid => decode_cpuid(prefixes, op2, stmts),
        tables::TwoByteOpcode::Unsupported => Err(DecodeError::UnsupportedOpcode(op2)),
    } }?;
    Ok(1 + consumed_after_escape)
}

pub(crate) fn decode_three_byte_0f38(
    prefixes: &PrefixSet,
    bytes: &[u8],
    cursor: usize,
    stmts: &mut Vec<Stmt>,
) -> (res: Result<usize, DecodeError>)
    requires
        cursor < bytes.len(),
        bytes.len() <= isize::MAX,
        room(old(stmts)@),
        ssa_wf(old(stmts)@),
    ensures
        ssa_wf(final(stmts)@),
        old(stmts).len() <= final(stmts).len() <= old(stmts).len() + 0x100,
        res matches Ok(n) ==> 1 <= n <= 16,
        lowered(three_byte_code(*prefixes, bytes@, cursor as int, old(stmts).len() as int), old(stmts)@, final(stmts)@, res),
{
    let opcode = byte_at(bytes, cursor + 1)?;
    if (opcode == 0xF0 || opcode == 0xF1) && prefixes.rep == Some(0xF2u8) {
        decode_crc32c(prefixes, opcode, bytes, cursor + 1, stmts)
    } else if opcode == 0xF0 || opcode == 0xF1 {
        decode_movbe(prefixes, opcode, bytes, cursor + 1, stmts)
    } else {
        Err(DecodeError::UnsupportedOpcode(opcode))
    }
}

} // verus!
