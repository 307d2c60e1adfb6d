//! Traps, no-ops and system instructions.

use vstd::prelude::*;

use crate::decoder::emit::{byte_at, bytes_for_modrm, def, eff, emit, emit_void, modrm_bytes, op_bin, op_const, op_st_reg, room, ssa_wf};
use crate::decoder::groups::lowered;
use crate::decoder::modrm;
use crate::decoder::prefixes::{no_legacy_or_rex, PrefixSet};
use crate::decoder::DecodeError;
use crate::ir::{BinOp, BinOpKind, Constant, Cpuid, Fence, FenceKind, Gpr, Op, OpSize, Rdtsc, Stmt, StoreReg, Syscall, Trap, TrapKind, Xgetbv};

verus! {

/// An invalid-opcode or other trap of `kind`.
pub open spec fn trap(kind: TrapKind) -> Stmt {
    eff(Op::Trap(Trap { kind }))
}

/// `code` of length `len` when no legacy or REX prefix is present, else the
/// opcode refused.
pub open spec fn unprefixed(p: PrefixSet, opcode: u8, code: Seq<Stmt>, len: int) -> Result<(Seq<Stmt>, int), DecodeError> {
    if no_legacy_or_rex(p) {
        Ok((code, len))
    } else {
        Err(DecodeError::UnsupportedOpcode(opcode))
    }
}

/// The length an opcode byte and the ModR/M operand after `cursor` take, or
/// `Truncated` when the ModR/M or SIB byte is missing.
pub open spec fn modrm_span(b: Seq<u8>, cursor: int) -> Result<int, DecodeError> {
    let mc = cursor + 1;
    if mc >= b.len() {
        Err(DecodeError::Truncated)
    } else {
        let m = modrm::modrm_of(b[mc]);
        if m.rm == 4 && mc + 1 >= b.len() {
            Err(DecodeError::Truncated)
        } else {
            Ok(1 + modrm_bytes(m, b, mc))
        }
    }
}

/// A trap of `kind` spanning the ModR/M operand after `cursor`.
pub open spec fn trap_over_modrm(kind: TrapKind, b: Seq<u8>, cursor: int) -> Result<(Seq<Stmt>, int), DecodeError> {
    match modrm_span(b, cursor) {
        Ok(n) => Ok((seq![trap(kind)], n)),
        Err(e) => Err(e),
    }
}

/// 0F 00 (descriptor-table group) with the ModR/M byte after `cursor`:
/// /2 and /3 without prefixes trap as invalid; the rest are refused.
pub open spec fn descriptor_group_code(p: PrefixSet, opcode: u8, b: Seq<u8>, cursor: int) -> Result<(Seq<Stmt>, int), DecodeError> {
    if cursor + 1 >= b.len() {
        Err(DecodeError::Truncated)
    } else {
        let m = modrm::modrm_of(b[cursor + 1]);
        if (m.reg == 2 || m.reg == 3) && no_legacy_or_rex(p) {
            trap_over_modrm(TrapKind::Sigill, b, cursor)
        } else {
            Err(DecodeError::UnsupportedOpcode(opcode))
        }
    }
}

/// A two-byte opcode that traps with `kind` over its ModR/M operand, which
/// must name a register unless `any_rm`; refused with any prefix.
pub open spec fn rm_trap_code(p: PrefixSet, opcode: u8, b: Seq<u8>, cursor: int, kind: TrapKind, any_rm: bool) -> Result<(Seq<Stmt>, int), DecodeError> {
    if !no_legacy_or_rex(p) {
        Err(DecodeError::UnsupportedOpcode(opcode))
    } else if cursor + 1 >= b.len() {
        Err(DecodeError::Truncated)
    } else if !any_rm && modrm::modrm_of(b[cursor + 1]).mod_ != 3 {
        Err(DecodeError::UnsupportedOpcode(opcode))
    } else {
        trap_over_modrm(kind, b, cursor)
    }
}

/// The length of a no-op with a ModR/M operand (0F 1F /0 and the
/// prefetches) whose reg field is at most `max_reg` and, unless
/// `reg_any_mod`, whose operand is in memory.
pub open spec fn nop_span(opcode: u8, b: Seq<u8>, cursor: int, max_reg: u8, needs_mem: bool) -> Result<usize, DecodeError> {
    if cursor + 1 >= b.len() {
        Err(DecodeError::Truncated)
    } else {
        let m = modrm::modrm_of(b[cursor + 1]);
        if (needs_mem && m.mod_ == 3) || m.reg > max_reg {
            Err(DecodeError::UnsupportedOpcode(opcode))
        } else {
            match modrm_span(b, cursor) {
                Ok(n) => Ok(n as usize),
                Err(e) => Err(e),
            }
        }
    }
}

/// Reading the 64-bit value `op` into RAX's low half and its high half into
/// EDX, when the list holds `s` statements.
pub open spec fn edx_eax_code(op: Op, s: int) -> Seq<Stmt> {
    seq![
        def(s, op),
        eff(op_st_reg(Gpr::Rax, s, OpSize::I32)),
        def(s + 2, op_const(32, OpSize::I64)),
        def(s + 3, op_bin(BinOpKind::Shr, s, s + 2, OpSize::I64)),
        eff(op_st_reg(Gpr::Rdx, s + 3, OpSize::I32)),
    ]
}

/// Whether a register-form 0F 01 ModR/M byte is one of the privileged or
/// unsupported system instructions that trap as invalid.
pub open spec fn system_reg_trap(m: modrm::ModRm) -> bool {
    m.mod_ == 3 && ((m.reg == 0 && 1 <= m.rm <= 4) || (m.reg == 1 && (m.rm <= 3 || m.rm == 7))
        || (m.reg == 2 && (m.rm == 1 || m.rm == 4)) || m.reg == 3 || (m.reg == 7 && m.rm == 0))
}

/// 0F 01 (system group) with the ModR/M byte after `cursor` when the list
/// holds `s` statements: XGETBV (D0); the privileged register forms and the
/// memory forms of /2, /3, /7 and all of /6 trap as invalid without
/// prefixes; the rest are refused.
pub open spec fn system_group_code(p: PrefixSet, opcode: u8, b: Seq<u8>, cursor: int, s: int) -> Result<(Seq<Stmt>, int), DecodeError> {
    if cursor + 1 >= b.len() {
        Err(DecodeError::Truncated)
    } else {
        let m = modrm::modrm_of(b[cursor + 1]);
        if m.mod_ == 3 && m.reg == 2 && m.rm == 0 {
            unprefixed(p, opcode, edx_eax_code(Op::Xgetbv(Xgetbv), s), 2)
        } else if system_reg_trap(m) {
            unprefixed(p, opcode, seq![trap(TrapKind::Sigill)], 2)
        } else if ((m.reg == 2 || m.reg == 3 || m.reg == 7) && m.mod_ != 3) || m.reg == 6 {
            if !no_legacy_or_rex(p) {
                Err(DecodeError::UnsupportedOpcode(opcode))
            } else {
                trap_over_modrm(TrapKind::Sigill, b, cursor)
            }
        } else {
            Err(DecodeError::UnsupportedOpcode(opcode))
        }
    }
}

/// 0F AE (fences) with the ModR/M byte after `cursor`: the memory forms
/// /7 (and /6 under 66) are no-ops; LFENCE, MFENCE and SFENCE (E8, F0, F8)
/// without prefixes lower to fences; the rest are refused.
pub open spec fn fence_code(p: PrefixSet, opcode: u8, b: Seq<u8>, cursor: int) -> Result<(Seq<Stmt>, int), DecodeError> {
    if cursor + 1 >= b.len() {
        Err(DecodeError::Truncated)
    } else {
        let m = modrm::modrm_of(b[cursor + 1]);
        if m.mod_ != 3 && (m.reg == 7 || (m.reg == 6 && p.operand_override)) && !p.rex.present && !p.lock
            && p.segment is None && p.rep is None && !p.addr_override {
            match modrm_span(b, cursor) {
                Ok(n) => Ok((Seq::empty(), n)),
                Err(e) => Err(e),
            }
        } else if !no_legacy_or_rex(p) || m.mod_ != 3 || m.rm != 0 || !(5 <= m.reg <= 7) {
            Err(DecodeError::UnsupportedOpcode(opcode))
        } else {
            let kind = if m.reg == 5 { FenceKind::Lfence } else if m.reg == 6 { FenceKind::Mfence } else { FenceKind::Sfence };
            Ok((seq![eff(Op::Fence(Fence { kind }))], 2))
        }
    }
}

/// INVD/WBINVD (0F 08/09; F3 0F 09 is WBNOINVD): an invalid-opcode trap.
pub open spec fn cache_trap_code(p: PrefixSet, opcode: u8) -> Result<(Seq<Stmt>, int), DecodeError> {
    let plain = p.rep is None;
    let wbnoinvd = opcode == 0x09 && p.rep == Some(0xF3u8);
    if p.rex.present || p.lock || p.segment is Some || p.operand_override || p.addr_override || (!plain && !wbnoinvd) {
        Err(DecodeError::UnsupportedOpcode(opcode))
    } else {
        Ok((seq![trap(TrapKind::Sigill)], 1))
    }
}

/// A one-byte opcode with an 8-bit immediate at `cursor + 1` that traps
/// with `kind`; refused with any prefix.
pub open spec fn imm8_trap_code(p: PrefixSet, opcode: u8, b: Seq<u8>, cursor: int, kind: TrapKind) -> Result<(Seq<Stmt>, int), DecodeError> {
    if !no_legacy_or_rex(p) {
        Err(DecodeError::UnsupportedOpcode(opcode))
    } else if cursor + 1 >= b.len() {
        Err(DecodeError::Truncated)
    } else {
        Ok((seq![trap(kind)], 2))
    }
}

/// ENDBR64/ENDBR32 (F3 0F 1E FA/FB) as a no-op of two bytes after the 0F.
pub open spec fn endbr_result(p: PrefixSet, opcode: u8, b: Seq<u8>, cursor: int) -> Result<usize, DecodeError> {
    if p.rep != Some(0xF3u8) || p.rex.present || p.operand_override || p.addr_override || p.lock || p.segment is Some {
        Err(DecodeError::UnsupportedOpcode(opcode))
    } else if cursor + 1 >= b.len() {
        Err(DecodeError::Truncated)
    } else if b[cursor + 1] == 0xFA || b[cursor + 1] == 0xFB {
        Ok(2)
    } else {
        Err(DecodeError::UnsupportedOpcode(opcode))
    }
}

/// An x87 opcode whose only accepted form is the register ModR/M byte with
/// the given reg field and an r/m field in `lo..=hi`, a two-byte no-op.
pub open spec fn x87_result(p: PrefixSet, opcode: u8, b: Seq<u8>, cursor: int, reg: u8, lo: u8, hi: u8) -> Result<usize, DecodeError> {
    if !no_legacy_or_rex(p) {
        Err(DecodeError::UnsupportedOpcode(opcode))
    } else if cursor + 1 >= b.len() {
        Err(DecodeError::Truncated)
    } else {
        let m = modrm::modrm_of(b[cursor + 1]);
        if m.mod_ == 3 && m.reg == reg && lo <= m.rm <= hi {
            Ok(2)
        } else {
            Err(DecodeError::UnsupportedOpcode(opcode))
        }
    }
}

#[verifier::spinoff_prover]
pub(crate) fn decode_descriptor_group(
    prefixes: &PrefixSet,
    opcode: u8,
    bytes: &[u8],
    cursor: usize,
    stmts: &mut Vec<Stmt>,
) -> (res: Result<usize, DecodeError>)
    requires
        cursor < bytes.len(),
        bytes.len() <= isize::MAX,
        room(old(stmts)@),
        ssa_wf(old(stmts)@),
    ensures
        ssa_wf(final(stmts)@),
        old(stmts).len() <= final(stmts).len() <= old(stmts).len() + 0x100,
        res matches Ok(n) ==> 1 <= n <= 16,
        lowered(descriptor_group_code(*prefixes, opcode, bytes@, cursor as int), old(stmts)@, final(stmts)@, res),
{
    let (modrm, _) = modrm::parse_modrm(bytes, cursor + 1)?;
    if (modrm.reg == 2 || modrm.reg == 3)
        && !prefixes.rex.present
        && !prefixes.lock
        && prefixes.segment.is_none()
        && prefixes.rep.is_none()
        && !prefixes.operand_override
        && !prefixes.addr_override
    {
        let modrm_bytes = bytes_for_modrm(&modrm, bytes, cursor + 1)?;
        emit_void(stmts, Op::Trap(Trap {
                kind: TrapKind::Sigill,
            }));
        assert(stmts@ =~= old(stmts)@ + seq![eff(Op::Trap(Trap {
                kind: TrapKind::Sigill,
            }))]);
        return Ok(1 + modrm_bytes);
    }
    Err(DecodeError::UnsupportedOpcode(opcode))
}

#[verifier::spinoff_prover]
pub(crate) fn decode_two_byte_rm_trap(
    prefixes: &PrefixSet,
    opcode: u8,
    bytes: &[u8],
    cursor: usize,
    kind: TrapKind,
    stmts: &mut Vec<Stmt>,
) -> (res: Result<usize, DecodeError>)
    requires
        cursor < bytes.len(),
        bytes.len() <= isize::MAX,
        room(old(stmts)@),
        ssa_wf(old(stmts)@),
    ensures
        ssa_wf(final(stmts)@),
        old(stmts).len() <= final(stmts).len() <= old(stmts).len() + 0x100,
        res matches Ok(n) ==> 1 <= n <= 16,
        lowered(rm_trap_code(*prefixes, opcode, bytes@, cursor as int, kind, false), old(stmts)@, final(stmts)@, res),
{
    if prefixes.rex.present
        || prefixes.lock
        || prefixes.segment.is_some()
        || prefixes.rep.is_some()
        || prefixes.operand_override
        || prefixes.addr_override
    {
        return Err(DecodeError::UnsupportedOpcode(opcode));
    }
    let (modrm, _) = modrm::parse_modrm(bytes, cursor + 1)?;
    if modrm.mod_ != 3 {
        return Err(DecodeError::UnsupportedOpcode(opcode));
    }
    let modrm_bytes = bytes_for_modrm(&modrm, bytes, cursor + 1)?;
    emit_void(stmts, Op::Trap(Trap { kind }));
    assert(stmts@ =~= old(stmts)@ + seq![eff(Op::Trap(Trap { kind }))]);
    Ok(1 + modrm_bytes)
}

#[verifier::spinoff_prover]
pub(crate) fn decode_two_byte_any_rm_trap(
    prefixes: &PrefixSet,
    opcode: u8,
    bytes: &[u8],
    cursor: usize,
    kind: TrapKind,
    stmts: &mut Vec<Stmt>,
) -> (res: Result<usize, DecodeError>)
    requires
        cursor < bytes.len(),
        bytes.len() <= isize::MAX,
        room(old(stmts)@),
        ssa_wf(old(stmts)@),
    ensures
        ssa_wf(final(stmts)@),
        old(stmts).len() <= final(stmts).len() <= old(stmts).len() + 0x100,
        res matches Ok(n) ==> 1 <= n <= 16,
        lowered(rm_trap_code(*prefixes, opcode, bytes@, cursor as int, kind, true), old(stmts)@, final(stmts)@, res),
{
    if prefixes.rex.present
        || prefixes.lock
        || prefixes.segment.is_some()
        || prefixes.rep.is_some()
        || prefixes.operand_override
        || prefixes.addr_override
    {
        return Err(DecodeError::UnsupportedOpcode(opcode));
    }
    let (modrm, _) = modrm::parse_modrm(bytes, cursor + 1)?;
    let modrm_bytes = bytes_for_modrm(&modrm, bytes, cursor + 1)?;
    emit_void(stmts, Op::Trap(Trap { kind }));
    assert(stmts@ =~= old(stmts)@ + seq![eff(Op::Trap(Trap { kind }))]);
    Ok(1 + modrm_bytes)
}

#[verifier::spinoff_prover]
pub(crate) fn decode_nop_rm(opcode: u8, bytes: &[u8], cursor: usize) -> (res: Result<usize, DecodeError>)
    requires
        cursor < bytes.len(),
        bytes.len() <= isize::MAX,
    ensures
        res matches Ok(n) ==> 1 <= n <= 16,
        res == nop_span(opcode, bytes@, cursor as int, 0, false),
{
    let (modrm, _) = modrm::parse_modrm(bytes, cursor + 1)?;
    if modrm.reg != 0 {
        return Err(DecodeError::UnsupportedOpcode(opcode));
    }
    let modrm_bytes = bytes_for_modrm(&modrm, bytes, cursor + 1)?;
    Ok(1 + modrm_bytes)
}

#[verifier::spinoff_prover]
pub(crate) fn decode_system_group(
    prefixes: &PrefixSet,
    opcode: u8,
    bytes: &[u8],
    cursor: usize,
    stmts: &mut Vec<Stmt>,
) -> (res: Result<usize, DecodeError>)
    requires
        cursor < bytes.len(),
        bytes.len() <= isize::MAX,
        room(old(stmts)@),
        ssa_wf(old(stmts)@),
    ensures
        ssa_wf(final(stmts)@),
        old(stmts).len() <= final(stmts).len() <= old(stmts).len() + 0x100,
        res matches Ok(n) ==> 1 <= n <= 16,
        lowered(system_group_code(*prefixes, opcode, bytes@, cursor as int, old(stmts).len() as int), old(stmts)@, final(stmts)@, res),
{
    let (modrm, _) = modrm::parse_modrm(bytes, cursor + 1)?;
    if modrm.mod_ == 3 && modrm.reg == 2 && modrm.rm == 0 {
        return decode_xgetbv(prefixes, opcode, stmts);
    }
    if modrm.mod_ == 3
        && ((modrm.reg == 0 && matches!(modrm.rm, 1..=4))
            || (modrm.reg == 1 && (modrm.rm <= 3 || modrm.rm == 7))
            || (modrm.reg == 2 && matches!(modrm.rm, 1 | 4))
            || modrm.reg == 3
            || (modrm.reg == 7 && modrm.rm == 0))
    {
        if prefixes.rex.present
            || prefixes.lock
            || prefixes.segment.is_some()
            || prefixes.rep.is_some()
            || prefixes.operand_override
            || prefixes.addr_override
        {
            return Err(DecodeError::UnsupportedOpcode(opcode));
        }
        emit_void(stmts, Op::Trap(Trap {
                kind: TrapKind::Sigill,
            }));
        assert(stmts@ =~= old(stmts)@ + seq![eff(Op::Trap(Trap {
                kind: TrapKind::Sigill,
            }))]);
        return Ok(2);
    }
    if ((modrm.reg == 2 || modrm.reg == 3 || modrm.reg == 7) && modrm.mod_ != 3) || modrm.reg == 6 {
        if prefixes.rex.present
            || prefixes.lock
            || prefixes.segment.is_some()
            || prefixes.rep.is_some()
            || prefixes.operand_override
            || prefixes.addr_override
        {
            return Err(DecodeError::UnsupportedOpcode(opcode));
        }
        let modrm_bytes = bytes_for_modrm(&modrm, bytes, cursor + 1)?;
        emit_void(stmts, Op::Trap(Trap {
                kind: TrapKind::Sigill,
            }));
        assert(stmts@ =~= old(stmts)@ + seq![eff(Op::Trap(Trap {
                kind: TrapKind::Sigill,
            }))]);
        return Ok(1 + modrm_bytes);
    }
    Err(DecodeError::UnsupportedOpcode(opcode))
}

#[verifier::spinoff_prover]
pub(crate) fn decode_prefetch(opcode: u8, bytes: &[u8], cursor: usize) -> (res: Result<usize, DecodeError>)
    requires
        cursor < bytes.len(),
        bytes.len() <= isize::MAX,
    ensures
        res matches Ok(n) ==> 1 <= n <= 16,
        res == nop_span(opcode, bytes@, cursor as int, 3, true),
{
    let (modrm, _) = modrm::parse_modrm(bytes, cursor + 1)?;
    if modrm.mod_ == 3 || modrm.reg > 3 {
        return Err(DecodeError::UnsupportedOpcode(opcode));
    }
    let modrm_bytes = bytes_for_modrm(&modrm, bytes, cursor + 1)?;
    Ok(1 + modrm_bytes)
}

#[verifier::spinoff_prover]
pub(crate) fn decode_prefetchw(opcode: u8, bytes: &[u8], cursor: usize) -> (res: Result<usize, DecodeError>)
    requires
        cursor < bytes.len(),
        bytes.len() <= isize::MAX,
    ensures
        res matches Ok(n) ==> 1 <= n <= 16,
        res == nop_span(opcode, bytes@, cursor as int, 1, true),
{
    let (modrm, _) = modrm::parse_modrm(bytes, cursor + 1)?;
    if modrm.mod_ == 3 || modrm.reg > 1 {
        return Err(DecodeError::UnsupportedOpcode(opcode));
    }
    let modrm_bytes = bytes_for_modrm(&modrm, bytes, cursor + 1)?;
    Ok(1 + modrm_bytes)
}

#[verifier::spinoff_prover]
pub(crate) fn decode_mmx_state_noop(prefixes: &PrefixSet, opcode: u8) -> (res: Result<usize, DecodeError>)
    ensures
        res matches Ok(n) ==> 1 <= n <= 16,
        res == (if no_legacy_or_rex(*prefixes) { Ok::<usize, DecodeError>(1) } else { Err::<usize, DecodeError>(DecodeError::UnsupportedOpcode(opcode)) }),
{
    if prefixes.rex.present
        || prefixes.lock
        || prefixes.segment.is_some()
        || prefixes.rep.is_some()
        || prefixes.operand_override
        || prefixes.addr_override
    {
        return Err(DecodeError::UnsupportedOpcode(opcode));
    }
    Ok(1)
}

#[verifier::spinoff_prover]
pub(crate) fn decode_endbr(
    prefixes: &PrefixSet,
    opcode: u8,
    bytes: &[u8],
    cursor: usize,
) -> (res: Result<usize, DecodeError>)
    requires
        cursor < bytes.len(),
        bytes.len() <= isize::MAX,
    ensures
        res matches Ok(n) ==> 1 <= n <= 16,
        res == endbr_result(*prefixes, opcode, bytes@, cursor as int),
{
    if prefixes.rep != Some(0xF3)
        || prefixes.rex.present
        || prefixes.operand_override
        || prefixes.addr_override
        || prefixes.lock
        || prefixes.segment.is_some()
    {
        return Err(DecodeError::UnsupportedOpcode(opcode));
    }
    let b = byte_at(bytes, cursor + 1)?;
    if b == 0xFA || b == 0xFB {
        Ok(2)
    } else {
        Err(DecodeError::UnsupportedOpcode(opcode))
    }
}

#[verifier::spinoff_prover]
pub(crate) fn decode_fence(
    prefixes: &PrefixSet,
    opcode: u8,
    bytes: &[u8],
    cursor: usize,
    stmts: &mut Vec<Stmt>,
) -> (res: Result<usize, DecodeError>)
    requires
        cursor < bytes.len(),
        bytes.len() <= isize::MAX,
        room(old(stmts)@),
        ssa_wf(old(stmts)@),
    ensures
        ssa_wf(final(stmts)@),
        old(stmts).len() <= final(stmts).len() <= old(stmts).len() + 0x100,
        res matches Ok(n) ==> 1 <= n <= 16,
        lowered(fence_code(*prefixes, opcode, bytes@, cursor as int), old(stmts)@, final(stmts)@, res),
{
    let (modrm, _) = modrm::parse_modrm(bytes, cursor + 1)?;
    if modrm.mod_ != 3
        && (modrm.reg == 7 || (modrm.reg == 6 && prefixes.operand_override))
        && !prefixes.rex.present
        && !prefixes.lock
        && prefixes.segment.is_none()
        && prefixes.rep.is_none()
        && !prefixes.addr_override
    {
        let modrm_bytes = bytes_for_modrm(&modrm, bytes, cursor + 1)?;
        return Ok(1 + modrm_bytes);
    }
    if prefixes.rex.present
        || prefixes.lock
        || prefixes.segment.is_some()
        || prefixes.rep.is_some()
        || prefixes.operand_override
        || prefixes.addr_override
    {
        return Err(DecodeError::UnsupportedOpcode(opcode));
    }
    if modrm.mod_ != 3 || modrm.rm != 0 || !(5 <= modrm.reg && modrm.reg <= 7) {
        return Err(DecodeError::UnsupportedOpcode(opcode));
    }
    let kind = if modrm.reg == 5 {
        FenceKind::Lfence
    } else if modrm.reg == 6 {
        FenceKind::Mfence
    } else {
        FenceKind::Sfence
    };
    emit_void(stmts, Op::Fence(Fence { kind }));
    assert(stmts@ =~= old(stmts)@ + seq![eff(Op::Fence(Fence { kind }))]);
    Ok(2)
}

#[verifier::spinoff_prover]
pub(crate) fn decode_rdtsc(
    prefixes: &PrefixSet,
    opcode: u8,
    stmts: &mut Vec<Stmt>,
) -> (res: Result<usize, DecodeError>)
    requires
        room(old(stmts)@),
        ssa_wf(old(stmts)@),
    ensures
        ssa_wf(final(stmts)@),
        old(stmts).len() <= final(stmts).len() <= old(stmts).len() + 0x100,
        res matches Ok(n) ==> 1 <= n <= 16,
        lowered(unprefixed(*prefixes, opcode, edx_eax_code(Op::Rdtsc(Rdtsc), old(stmts).len() as int), 1), old(stmts)@, final(stmts)@, res),
{
    if prefixes.rex.present
        || prefixes.lock
        || prefixes.segment.is_some()
        || prefixes.rep.is_some()
        || prefixes.operand_override
        || prefixes.addr_override
    {
        return Err(DecodeError::UnsupportedOpcode(opcode));
    }
    let ghost s0 = stmts@;
    let counter = emit(stmts, Op::Rdtsc(Rdtsc));
    emit_void(stmts, Op::StoreReg(StoreReg {
            reg: Gpr::Rax,
            value: counter,
            size: OpSize::I32,
        }));
    let shift = emit(stmts, Op::Constant(Constant {
            value: 32,
            size: OpSize::I64,
        }));
    let high = emit(stmts, Op::BinOp(BinOp {
            op: BinOpKind::Shr,
            lhs: counter,
            rhs: shift,
            size: OpSize::I64,
        }));
    emit_void(stmts, Op::StoreReg(StoreReg {
            reg: Gpr::Rdx,
            value: high,
            size: OpSize::I32,
        }));
    assert(stmts@ =~= s0 + edx_eax_code(Op::Rdtsc(Rdtsc), s0.len() as int));
    Ok(1)
}

#[verifier::spinoff_prover]
pub(crate) fn decode_xgetbv(
    prefixes: &PrefixSet,
    opcode: u8,
    stmts: &mut Vec<Stmt>,
) -> (res: Result<usize, DecodeError>)
    requires
        room(old(stmts)@),
        ssa_wf(old(stmts)@),
    ensures
        ssa_wf(final(stmts)@),
        old(stmts).len() <= final(stmts).len() <= old(stmts).len() + 0x100,
        res matches Ok(n) ==> 1 <= n <= 16,
        lowered(unprefixed(*prefixes, opcode, edx_eax_code(Op::Xgetbv(Xgetbv), old(stmts).len() as int), 2), old(stmts)@, final(stmts)@, res),
{
    if prefixes.rex.present
        || prefixes.lock
        || prefixes.segment.is_some()
        || prefixes.rep.is_some()
        || prefixes.operand_override
        || prefixes.addr_override
    {
        return Err(DecodeError::UnsupportedOpcode(opcode));
    }
    let ghost s0 = stmts@;
    let value = emit(stmts, Op::Xgetbv(Xgetbv));
    emit_void(stmts, Op::StoreReg(StoreReg {
            reg: Gpr::Rax,
            value,
            size: OpSize::I32,
        }));
    let shift = emit(stmts, Op::Constant(Constant {
            value: 32,
            size: OpSize::I64,
        }));
    let high = emit(stmts, Op::BinOp(BinOp {
            op: BinOpKind::Shr,
            lhs: value,
            rhs: shift,
            size: OpSize::I64,
        }));
    emit_void(stmts, Op::StoreReg(StoreReg {
            reg: Gpr::Rdx,
            value: high,
            size: OpSize::I32,
        }));
    assert(stmts@ =~= s0 + edx_eax_code(Op::Xgetbv(Xgetbv), s0.len() as int));
    Ok(2)
}

#[verifier::spinoff_prover]
pub(crate) fn decode_syscall(
    prefixes: &PrefixSet,
    opcode: u8,
    stmts: &mut Vec<Stmt>,
) -> (res: Result<usize, DecodeError>)
    requires
        room(old(stmts)@),
        ssa_wf(old(stmts)@),
    ensures
        ssa_wf(final(stmts)@),
        old(stmts).len() <= final(stmts).len() <= old(stmts).len() + 0x100,
        res matches Ok(n) ==> 1 <= n <= 16,
        lowered(unprefixed(*prefixes, opcode, seq![eff(Op::Syscall(Syscall))], 1), old(stmts)@, final(stmts)@, res),
{
    if prefixes.rex.present
        || prefixes.lock
        || prefixes.segment.is_some()
        || prefixes.rep.is_some()
        || prefixes.operand_override
        || prefixes.addr_override
    {
        return Err(DecodeError::UnsupportedOpcode(opcode));
    }
    emit_void(stmts, Op::Syscall(Syscall));
    assert(stmts@ =~= old(stmts)@ + seq![eff(Op::Syscall(Syscall))]);
    Ok(1)
}

#[verifier::spinoff_prover]
pub(crate) fn decode_ud2(
    prefixes: &PrefixSet,
    opcode: u8,
    stmts: &mut Vec<Stmt>,
) -> (res: Result<usize, DecodeError>)
    requires
        room(old(stmts)@),
        ssa_wf(old(stmts)@),
    ensures
        ssa_wf(final(stmts)@),
        old(stmts).len() <= final(stmts).len() <= old(stmts).len() + 0x100,
        res matches Ok(n) ==> 1 <= n <= 16,
        lowered(unprefixed(*prefixes, opcode, seq![trap(TrapKind::Sigill)], 1), old(stmts)@, final(stmts)@, res),
{
    if prefixes.rex.present
        || prefixes.lock
        || prefixes.segment.is_some()
        || prefixes.rep.is_some()
        || prefixes.operand_override
        || prefixes.addr_override
    {
        return Err(DecodeError::UnsupportedOpcode(opcode));
    }
    emit_void(stmts, Op::Trap(Trap {
            kind: TrapKind::Sigill,
        }));
    assert(stmts@ =~= old(stmts)@ + seq![eff(Op::Trap(Trap {
            kind: TrapKind::Sigill,
        }))]);
    Ok(1)
}

#[verifier::spinoff_prover]
pub(crate) fn decode_one_byte_trap(
    prefixes: &PrefixSet,
    opcode: u8,
    kind: TrapKind,
    stmts: &mut Vec<Stmt>,
) -> (res: Result<usize, DecodeError>)
    requires
        room(old(stmts)@),
        ssa_wf(old(stmts)@),
    ensures
        ssa_wf(final(stmts)@),
        old(stmts).len() <= final(stmts).len() <= old(stmts).len() + 0x100,
        res matches Ok(n) ==> 1 <= n <= 16,
        no_legacy_or_rex(*prefixes) ==> res == Ok::<usize, DecodeError>(1)
            && final(stmts)@ == old(stmts)@.push(Stmt { result: None, op: Op::Trap(Trap { kind }) }),
        !no_legacy_or_rex(*prefixes) ==> res == Err::<usize, DecodeError>(DecodeError::UnsupportedOpcode(opcode)),
        lowered(unprefixed(*prefixes, opcode, seq![trap(kind)], 1), old(stmts)@, final(stmts)@, res),
{
    if prefixes.rex.present
        || prefixes.lock
        || prefixes.segment.is_some()
        || prefixes.rep.is_some()
        || prefixes.operand_override
        || prefixes.addr_override
    {
        return Err(DecodeError::UnsupportedOpcode(opcode));
    }
    emit_void(stmts, Op::Trap(Trap { kind }));
    assert(stmts@ =~= old(stmts)@ + seq![eff(Op::Trap(Trap { kind }))]);
    assert(stmts@ =~= old(stmts)@ + seq![trap(kind)]);
    Ok(1)
}

#[verifier::spinoff_prover]
pub(crate) fn decode_two_byte_trap(
    prefixes: &PrefixSet,
    opcode: u8,
    kind: TrapKind,
    stmts: &mut Vec<Stmt>,
) -> (res: Result<usize, DecodeError>)
    requires
        room(old(stmts)@),
        ssa_wf(old(stmts)@),
    ensures
        ssa_wf(final(stmts)@),
        old(stmts).len() <= final(stmts).len() <= old(stmts).len() + 0x100,
        res matches Ok(n) ==> 1 <= n <= 16,
        lowered(unprefixed(*prefixes, opcode, seq![trap(kind)], 1), old(stmts)@, final(stmts)@, res),
{
    if prefixes.rex.present
        || prefixes.lock
        || prefixes.segment.is_some()
        || prefixes.rep.is_some()
        || prefixes.operand_override
        || prefixes.addr_override
    {
        return Err(DecodeError::UnsupportedOpcode(opcode));
    }
    emit_void(stmts, Op::Trap(Trap { kind }));
    assert(stmts@ =~= old(stmts)@ + seq![eff(Op::Trap(Trap { kind }))]);
    Ok(1)
}

#[verifier::spinoff_prover]
pub(crate) fn decode_cache_trap(
    prefixes: &PrefixSet,
    opcode: u8,
    stmts: &mut Vec<Stmt>,
) -> (res: Result<usize, DecodeError>)
    requires
        room(old(stmts)@),
        ssa_wf(old(stmts)@),
    ensures
        ssa_wf(final(stmts)@),
        old(stmts).len() <= final(stmts).len() <= old(stmts).len() + 0x100,
        res matches Ok(n) ==> 1 <= n <= 16,
        lowered(cache_trap_code(*prefixes, opcode), old(stmts)@, final(stmts)@, res),
{
    let valid_plain = prefixes.rep.is_none();
    let valid_wbnoinvd = opcode == 0x09 && prefixes.rep == Some(0xF3);
    if prefixes.rex.present
        || prefixes.lock
        || prefixes.segment.is_some()
        || prefixes.operand_override
        || prefixes.addr_override
        || (!valid_plain && !valid_wbnoinvd)
    {
        return Err(DecodeError::UnsupportedOpcode(opcode));
    }
    emit_void(stmts, Op::Trap(Trap {
            kind: TrapKind::Sigill,
        }));
    assert(stmts@ =~= old(stmts)@ + seq![eff(Op::Trap(Trap {
            kind: TrapKind::Sigill,
        }))]);
    Ok(1)
}

#[verifier::spinoff_prover]
pub(crate) fn decode_int_imm8(
    prefixes: &PrefixSet,
    opcode: u8,
    bytes: &[u8],
    cursor: usize,
    stmts: &mut Vec<Stmt>,
) -> (res: Result<usize, DecodeError>)
    requires
        cursor < bytes.len(),
        bytes.len() <= isize::MAX,
        room(old(stmts)@),
        ssa_wf(old(stmts)@),
    ensures
        ssa_wf(final(stmts)@),
        old(stmts).len() <= final(stmts).len() <= old(stmts).len() + 0x100,
        res matches Ok(n) ==> 1 <= n <= 16,
        lowered(imm8_trap_code(*prefixes, opcode, bytes@, cursor as int, TrapKind::Sigtrap), old(stmts)@, final(stmts)@, res),
{
    if prefixes.rex.present
        || prefixes.lock
        || prefixes.segment.is_some()
        || prefixes.rep.is_some()
        || prefixes.operand_override
        || prefixes.addr_override
    {
        return Err(DecodeError::UnsupportedOpcode(opcode));
    }
    byte_at(bytes, cursor + 1)?;
    emit_void(stmts, Op::Trap(Trap {
            kind: TrapKind::Sigtrap,
        }));
    assert(stmts@ =~= old(stmts)@ + seq![eff(Op::Trap(Trap {
            kind: TrapKind::Sigtrap,
        }))]);
    Ok(2)
}

#[verifier::spinoff_prover]
pub(crate) fn decode_legacy_invalid_imm8(
    prefixes: &PrefixSet,
    opcode: u8,
    bytes: &[u8],
    cursor: usize,
    stmts: &mut Vec<Stmt>,
) -> (res: Result<usize, DecodeError>)
    requires
        cursor < bytes.len(),
        bytes.len() <= isize::MAX,
        room(old(stmts)@),
        ssa_wf(old(stmts)@),
    ensures
        ssa_wf(final(stmts)@),
        old(stmts).len() <= final(stmts).len() <= old(stmts).len() + 0x100,
        res matches Ok(n) ==> 1 <= n <= 16,
        lowered(imm8_trap_code(*prefixes, opcode, bytes@, cursor as int, TrapKind::Sigill), old(stmts)@, final(stmts)@, res),
{
    if prefixes.rex.present
        || prefixes.lock
        || prefixes.segment.is_some()
        || prefixes.rep.is_some()
        || prefixes.operand_override
        || prefixes.addr_override
    {
        return Err(DecodeError::UnsupportedOpcode(opcode));
    }
    byte_at(bytes, cursor + 1)?;
    emit_void(stmts, Op::Trap(Trap {
            kind: TrapKind::Sigill,
        }));
    assert(stmts@ =~= old(stmts)@ + seq![eff(Op::Trap(Trap {
            kind: TrapKind::Sigill,
        }))]);
    Ok(2)
}

#[verifier::spinoff_prover]
pub(crate) fn decode_io_trap_imm8(
    prefixes: &PrefixSet,
    opcode: u8,
    bytes: &[u8],
    cursor: usize,
    stmts: &mut Vec<Stmt>,
) -> (res: Result<usize, DecodeError>)
    requires
        cursor < bytes.len(),
        bytes.len() <= isize::MAX,
        room(old(stmts)@),
        ssa_wf(old(stmts)@),
    ensures
        ssa_wf(final(stmts)@),
        old(stmts).len() <= final(stmts).len() <= old(stmts).len() + 0x100,
        res matches Ok(n) ==> 1 <= n <= 16,
        lowered(imm8_trap_code(*prefixes, opcode, bytes@, cursor as int, TrapKind::Sigill), old(stmts)@, final(stmts)@, res),
{
    if prefixes.rex.present
        || prefixes.lock
        || prefixes.segment.is_some()
        || prefixes.rep.is_some()
        || prefixes.operand_override
        || prefixes.addr_override
    {
        return Err(DecodeError::UnsupportedOpcode(opcode));
    }
    byte_at(bytes, cursor + 1)?;
    emit_void(stmts, Op::Trap(Trap {
            kind: TrapKind::Sigill,
        }));
    assert(stmts@ =~= old(stmts)@ + seq![eff(Op::Trap(Trap {
            kind: TrapKind::Sigill,
        }))]);
    Ok(2)
}

#[verifier::spinoff_prover]
pub(crate) fn decode_cpuid(
    prefixes: &PrefixSet,
    opcode: u8,
    stmts: &mut Vec<Stmt>,
) -> (res: Result<usize, DecodeError>)
    requires
        room(old(stmts)@),
        ssa_wf(old(stmts)@),
    ensures
        ssa_wf(final(stmts)@),
        old(stmts).len() <= final(stmts).len() <= old(stmts).len() + 0x100,
        res matches Ok(n) ==> 1 <= n <= 16,
        lowered(unprefixed(*prefixes, opcode, seq![eff(Op::Cpuid(Cpuid))], 1), old(stmts)@, final(stmts)@, res),
{
    if prefixes.rex.present
        || prefixes.lock
        || prefixes.segment.is_some()
        || prefixes.rep.is_some()
        || prefixes.operand_override
        || prefixes.addr_override
    {
        return Err(DecodeError::UnsupportedOpcode(opcode));
    }
    emit_void(stmts, Op::Cpuid(Cpuid));
    assert(stmts@ =~= old(stmts)@ + seq![eff(Op::Cpuid(Cpuid))]);
    Ok(1)
}

#[verifier::spinoff_prover]
pub(crate) fn decode_x87_d9(
    prefixes: &PrefixSet,
    opcode: u8,
    bytes: &[u8],
    cursor: usize,
) -> (res: Result<usize, DecodeError>)
    requires
        cursor < bytes.len(),
        bytes.len() <= isize::MAX,
    ensures
        res matches Ok(n) ==> 1 <= n <= 16,
        res == x87_result(*prefixes, opcode, bytes@, cursor as int, 2, 0, 0),
{
    if prefixes.rex.present
        || prefixes.lock
        || prefixes.segment.is_some()
        || prefixes.rep.is_some()
        || prefixes.operand_override
        || prefixes.addr_override
    {
        return Err(DecodeError::UnsupportedOpcode(opcode));
    }
    let (modrm, _) = modrm::parse_modrm(bytes, cursor + 1)?;
    if modrm.mod_ == 3 && modrm.reg == 2 && modrm.rm == 0 {
        Ok(2)
    } else {
        Err(DecodeError::UnsupportedOpcode(opcode))
    }
}

#[verifier::spinoff_prover]
pub(crate) fn decode_x87_db(
    prefixes: &PrefixSet,
    opcode: u8,
    bytes: &[u8],
    cursor: usize,
) -> (res: Result<usize, DecodeError>)
    requires
        cursor < bytes.len(),
        bytes.len() <= isize::MAX,
    ensures
        res matches Ok(n) ==> 1 <= n <= 16,
        res == x87_result(*prefixes, opcode, bytes@, cursor as int, 4, 2, 3),
{
    if prefixes.rex.present
        || prefixes.lock
        || prefixes.segment.is_some()
        || prefixes.rep.is_some()
        || prefixes.operand_override
        || prefixes.addr_override
    {
        return Err(DecodeError::UnsupportedOpcode(opcode));
    }
    let (modrm, _) = modrm::parse_modrm(bytes, cursor + 1)?;
    if modrm.mod_ == 3 && modrm.reg == 4 && matches!(modrm.rm, 2 | 3) {
        Ok(2)
    } else {
        Err(DecodeError::UnsupportedOpcode(opcode))
    }
}

} // verus!
