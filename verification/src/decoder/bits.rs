//! Bit counting, byte swapping and CRC.

use vstd::prelude::*;

use crate::decoder::emit::{
    addr_code, def, eff, emit, emit_addr_with_size, emit_rm_load, emit_void, map_reg, mem_operand, modrm_bytes, op_bin,
    op_const, op_ld_mem, op_ld_reg, op_st_mem, op_st_reg, reg_reg, rm_insn_len, rm_load, rm_ok, rm_reg, room, ssa_wf,
};
use crate::decoder::groups::lowered;
use crate::decoder::modrm;
use crate::decoder::prefixes::{PrefixSet, operand_size, spec_operand_size};
use crate::decoder::DecodeError;
use crate::ir::{BinOp, BinOpKind, Bswap, CmpFlags, CondCode, Constant, Crc32c, LoadMem, LoadReg, Lzcnt, Op, OpSize, Popcnt, Select, Stmt, StoreMem, StoreReg, Tzcnt, WriteFlagsCountZero, WriteFlagsPopcnt};

verus! {

/// POPCNT (`form` 0), LZCNT (1) or TZCNT (2) with the ModR/M byte after
/// `cursor` when the list holds `s` statements: the count of the r/m
/// operand written to the register, then the flags the count sets.
pub open spec fn count_code(p: PrefixSet, form: u8, b: Seq<u8>, cursor: int, s: int) -> Result<(Seq<Stmt>, int), DecodeError> {
    let size = spec_operand_size(p);
    let mc = cursor + 1;
    if mc >= b.len() {
        Err(DecodeError::Truncated)
    } else {
        let m = modrm::modrm_of(b[mc]);
        if !rm_ok(m, p, b, mc) {
            Err(mem_operand(m, p, b, mc)->Err_0)
        } else {
            let r = rm_load(m, p, b, mc, 0, size, s);
            let k = s + r.0.len();
            let v = r.1 as u32;
            let count = if form == 0 {
                Op::Popcnt(Popcnt { value: v, size })
            } else if form == 1 {
                Op::Lzcnt(Lzcnt { value: v, size })
            } else {
                Op::Tzcnt(Tzcnt { value: v, size })
            };
            let flags = if form == 0 {
                Op::WriteFlagsPopcnt(WriteFlagsPopcnt { src: v, size })
            } else {
                Op::WriteFlagsCountZero(WriteFlagsCountZero { src: v, result: k as u32, size })
            };
            Ok((r.0 + seq![def(k, count), eff(op_st_reg(reg_reg(m, p), k, size)), eff(flags)], rm_insn_len(m, b, mc)))
        }
    }
}

/// BSF (`is_bsr` false) or BSR with the ModR/M byte after `cursor`
/// (register operand only) when the list holds `s` statements: the index of
/// the lowest set bit (the trailing-zero count) or of the highest one (the
/// width less one less the leading-zero count); a zero source keeps the old
/// destination.
pub open spec fn bsf_bsr_code(p: PrefixSet, op2: u8, b: Seq<u8>, cursor: int, is_bsr: bool, s: int) -> Result<(Seq<Stmt>, int), DecodeError> {
    let size = spec_operand_size(p);
    let mc = cursor + 1;
    if mc >= b.len() {
        Err(DecodeError::Truncated)
    } else {
        let m = modrm::modrm_of(b[mc]);
        if m.mod_ != 3 {
            Err(DecodeError::UnsupportedOpcode(op2))
        } else {
            let (count, c, n) = if is_bsr {
                (seq![
                    def(s + 2, Op::Lzcnt(Lzcnt { value: s as u32, size })),
                    def(s + 3, op_const((size.spec_bit_width() - 1) as u64, size)),
                    def(s + 4, op_bin(BinOpKind::Sub, s + 3, s + 2, size)),
                ], s + 4, s + 5)
            } else {
                (seq![def(s + 2, Op::Tzcnt(Tzcnt { value: s as u32, size }))], s + 2, s + 3)
            };
            Ok((seq![def(s, op_ld_reg(rm_reg(m, p), size)), def(s + 1, op_ld_reg(reg_reg(m, p), size))] + count + seq![
                def(n, op_const(0, size)),
                def(n + 1, Op::CmpFlags(CmpFlags { lhs: s as u32, rhs: n as u32, size })),
                def(n + 2, Op::Select(Select { cc: CondCode::Eq, true_value: (s + 1) as u32, false_value: c as u32, size })),
                eff(op_st_reg(reg_reg(m, p), n + 2, size)),
            ], 2))
        }
    }
}

/// BSWAP r (0F C8+r, `opcode` the second byte) when the list holds `s`
/// statements. Refused with a REP, LOCK or segment prefix or at 16 bits.
pub open spec fn bswap_code(p: PrefixSet, opcode: u8, s: int) -> Result<(Seq<Stmt>, int), DecodeError> {
    let size = spec_operand_size(p);
    if p.rep is Some || p.lock || p.segment is Some || size == OpSize::I16 {
        Err(DecodeError::UnsupportedOpcode(opcode))
    } else {
        let reg = modrm::ext_reg(opcode & 0x07, p.rex.b);
        Ok((seq![
            def(s, op_ld_reg(reg, size)),
            def(s + 1, Op::Bswap(Bswap { value: s as u32, size })),
            eff(op_st_reg(reg, s + 1, size)),
        ], 1))
    }
}

/// MOVBE (0F 38 F0 load, F1 store; memory operand only) with the ModR/M
/// byte after `cursor` when the list holds `s` statements: a byte-swapped
/// load into the register or a byte-swapped store of it.
pub open spec fn movbe_code(p: PrefixSet, opcode: u8, b: Seq<u8>, cursor: int, s: int) -> Result<(Seq<Stmt>, int), DecodeError> {
    let size = spec_operand_size(p);
    let mc = cursor + 1;
    if p.rep is Some || p.lock || p.segment is Some {
        Err(DecodeError::UnsupportedOpcode(opcode))
    } else if mc >= b.len() {
        Err(DecodeError::Truncated)
    } else {
        let m = modrm::modrm_of(b[mc]);
        if m.mod_ == 3 {
            Err(DecodeError::UnsupportedOpcode(opcode))
        } else {
            match mem_operand(m, p, b, mc) {
                Err(e) => Err(e),
                Ok(a) => {
                    let c = addr_code(a, 0, s);
                    let k = s + c.0.len();
                    let tail = if opcode == 0xF0 {
                        seq![def(k, op_ld_mem(c.1, size)), def(k + 1, Op::Bswap(Bswap { value: k as u32, size })),
                            eff(op_st_reg(reg_reg(m, p), k + 1, size))]
                    } else {
                        seq![def(k, op_ld_reg(reg_reg(m, p), size)), def(k + 1, Op::Bswap(Bswap { value: k as u32, size })),
                            eff(op_st_mem(c.1, k + 1, size))]
                    };
                    Ok((c.0 + tail, 2 + modrm_bytes(m, b, mc)))
                },
            }
        }
    }
}

/// CRC32 (F2 0F 38 F0/F1) with the ModR/M byte after `cursor` when the list
/// holds `s` statements: the register's CRC combined with the r/m data (8
/// bits for F0, else 16, 32 or, with REX.W, 64 into a 64-bit register).
/// Refused without F2 or with LOCK or a segment prefix.
pub open spec fn crc32c_code(p: PrefixSet, opcode: u8, b: Seq<u8>, cursor: int, s: int) -> Result<(Seq<Stmt>, int), DecodeError> {
    let mc = cursor + 1;
    if p.rep != Some(0xF2u8) || p.lock || p.segment is Some {
        Err(DecodeError::UnsupportedOpcode(opcode))
    } else if mc >= b.len() {
        Err(DecodeError::Truncated)
    } else {
        let m = modrm::modrm_of(b[mc]);
        let src_size = if opcode == 0xF0 {
            OpSize::I8
        } else if p.operand_override {
            OpSize::I16
        } else if p.rex.w {
            OpSize::I64
        } else {
            OpSize::I32
        };
        let dst_size = if opcode != 0xF0 && !p.operand_override && p.rex.w { OpSize::I64 } else { OpSize::I32 };
        if !rm_ok(m, p, b, mc) {
            Err(mem_operand(m, p, b, mc)->Err_0)
        } else {
            let r = rm_load(m, p, b, mc, 0, src_size, s + 1);
            let k = s + 1 + r.0.len();
            Ok((seq![def(s, op_ld_reg(reg_reg(m, p), dst_size))] + r.0 + seq![
                def(k, Op::Crc32c(Crc32c { crc: s as u32, data: r.1 as u32, data_size: src_size })),
                eff(op_st_reg(reg_reg(m, p), k, dst_size)),
            ], 1 + rm_insn_len(m, b, mc)))
        }
    }
}

/// Read the r/m operand of the ModR/M byte at `mc`, count its bits by
/// `form`, and write the count and the flags.
#[verifier::spinoff_prover]
#[verifier::rlimit(40)]
fn emit_count(
    prefixes: &PrefixSet,
    form: u8,
    bytes: &[u8],
    cursor: usize,
    stmts: &mut Vec<Stmt>,
) -> (res: Result<usize, DecodeError>)
    requires
        cursor < bytes.len(),
        bytes.len() <= isize::MAX,
        room(old(stmts)@),
        ssa_wf(old(stmts)@),
    ensures
        ssa_wf(final(stmts)@),
        old(stmts).len() <= final(stmts).len() <= old(stmts).len() + 0x100,
        res matches Ok(n) ==> 1 <= n <= 16,
        lowered(count_code(*prefixes, form, bytes@, cursor as int, old(stmts).len() as int), old(stmts)@, final(stmts)@, res),
{
    let size = operand_size(prefixes, true);
    let (modrm, _after) = modrm::parse_modrm(bytes, cursor + 1)?;
    let dst_reg = map_reg(modrm.reg, &prefixes.rex, true);
    let ghost s0 = stmts@;
    let (src, _addr, used) = emit_rm_load(modrm, prefixes, bytes, cursor + 1, 0, size, stmts)?;
    let ghost s1 = stmts@;
    let ghost r = rm_load(modrm, *prefixes, bytes@, cursor + 1, 0, size, s0.len() as int);
    assert(s1 =~= s0 + r.0);
    let ghost k: int = s1.len() as int;
    if form == 0 {
        let result = emit(stmts, Op::Popcnt(Popcnt { value: src, size }));
        emit_void(stmts, Op::StoreReg(StoreReg {
                reg: dst_reg,
                value: result,
                size,
            }));
        emit_void(stmts, Op::WriteFlagsPopcnt(WriteFlagsPopcnt { src, size }));
        assert(stmts@ =~= s0 + (r.0 + seq![def(k, Op::Popcnt(Popcnt { value: src, size })), eff(op_st_reg(reg_reg(modrm, *prefixes), k, size)),
            eff(Op::WriteFlagsPopcnt(WriteFlagsPopcnt { src, size }))]));
    } else {
        let result = if form == 1 {
            emit(stmts, Op::Lzcnt(Lzcnt { value: src, size }))
        } else {
            emit(stmts, Op::Tzcnt(Tzcnt { value: src, size }))
        };
        let ghost count = stmts@.last().op;
        emit_void(stmts, Op::StoreReg(StoreReg {
                reg: dst_reg,
                value: result,
                size,
            }));
        emit_void(stmts, Op::WriteFlagsCountZero(WriteFlagsCountZero { src, result, size }));
        assert(stmts@ =~= s0 + (r.0 + seq![def(k, count), eff(op_st_reg(reg_reg(modrm, *prefixes), k, size)),
            eff(Op::WriteFlagsCountZero(WriteFlagsCountZero { src, result: k as u32, size }))]));
    }
    Ok(1 + used)
}

#[verifier::spinoff_prover]
pub(crate) fn decode_popcnt(
    prefixes: &PrefixSet,
    bytes: &[u8],
    cursor: usize,
    stmts: &mut Vec<Stmt>,
) -> (res: Result<usize, DecodeError>)
    requires
        cursor < bytes.len(),
        bytes.len() <= isize::MAX,
        room(old(stmts)@),
        ssa_wf(old(stmts)@),
    ensures
        ssa_wf(final(stmts)@),
        old(stmts).len() <= final(stmts).len() <= old(stmts).len() + 0x100,
        res matches Ok(n) ==> 1 <= n <= 16,
        lowered(count_code(*prefixes, 0, bytes@, cursor as int, old(stmts).len() as int), old(stmts)@, final(stmts)@, res),
{
    emit_count(prefixes, 0, bytes, cursor, stmts)
}

#[verifier::spinoff_prover]
pub(crate) fn decode_lzcnt(
    prefixes: &PrefixSet,
    bytes: &[u8],
    cursor: usize,
    stmts: &mut Vec<Stmt>,
) -> (res: Result<usize, DecodeError>)
    requires
        cursor < bytes.len(),
        bytes.len() <= isize::MAX,
        room(old(stmts)@),
        ssa_wf(old(stmts)@),
    ensures
        ssa_wf(final(stmts)@),
        old(stmts).len() <= final(stmts).len() <= old(stmts).len() + 0x100,
        res matches Ok(n) ==> 1 <= n <= 16,
        lowered(count_code(*prefixes, 1, bytes@, cursor as int, old(stmts).len() as int), old(stmts)@, final(stmts)@, res),
{
    emit_count(prefixes, 1, bytes, cursor, stmts)
}

#[verifier::spinoff_prover]
pub(crate) fn decode_tzcnt(
    prefixes: &PrefixSet,
    bytes: &[u8],
    cursor: usize,
    stmts: &mut Vec<Stmt>,
) -> (res: Result<usize, DecodeError>)
    requires
        cursor < bytes.len(),
        bytes.len() <= isize::MAX,
        room(old(stmts)@),
        ssa_wf(old(stmts)@),
    ensures
        ssa_wf(final(stmts)@),
        old(stmts).len() <= final(stmts).len() <= old(stmts).len() + 0x100,
        res matches Ok(n) ==> 1 <= n <= 16,
        lowered(count_code(*prefixes, 2, bytes@, cursor as int, old(stmts).len() as int), old(stmts)@, final(stmts)@, res),
{
    emit_count(prefixes, 2, bytes, cursor, stmts)
}

// BSF/BSR (bare 0F BC/BD), register-direct only. BSF = trailing-zero count; BSR = the high set-bit *index*
// = (bit_width - 1) - lzcnt (NOT lzcnt itself). x86 sets ZF=1 and leaves the
// destination unchanged when the source is zero, so a CmpFlags{src,0} sets ZF
// and a Select keeps the old destination on the zero case.
#[verifier::spinoff_prover]
#[verifier::rlimit(40)]
pub(crate) fn decode_bsf_bsr(
    prefixes: &PrefixSet,
    op2: u8,
    bytes: &[u8],
    cursor: usize,
    is_bsr: bool,
    stmts: &mut Vec<Stmt>,
) -> (res: Result<usize, DecodeError>)
    requires
        cursor < bytes.len(),
        bytes.len() <= isize::MAX,
        room(old(stmts)@),
        ssa_wf(old(stmts)@),
    ensures
        ssa_wf(final(stmts)@),
        old(stmts).len() <= final(stmts).len() <= old(stmts).len() + 0x100,
        res matches Ok(n) ==> 1 <= n <= 16,
        lowered(bsf_bsr_code(*prefixes, op2, bytes@, cursor as int, is_bsr, old(stmts).len() as int), old(stmts)@, final(stmts)@, res),
{
    let size = operand_size(prefixes, true);
    let (modrm, _after) = modrm::parse_modrm(bytes, cursor + 1)?;
    if modrm.mod_ != 3 {
        return Err(DecodeError::UnsupportedOpcode(op2));
    }
    let dst_reg = map_reg(modrm.reg, &prefixes.rex, true);
    let src_reg = map_reg(modrm.rm, &prefixes.rex, false);

    let ghost s0 = stmts@;
    let src = emit(stmts, Op::LoadReg(LoadReg { reg: src_reg, size }));
    let old = emit(stmts, Op::LoadReg(LoadReg { reg: dst_reg, size }));

    let count = if is_bsr {
        let lz = emit(stmts, Op::Lzcnt(Lzcnt { value: src, size }));
        let width = emit(stmts, Op::Constant(Constant {
                value: (size.bit_width() - 1) as u64,
                size,
            }));
        let idx = emit(stmts, Op::BinOp(BinOp {
                op: BinOpKind::Sub,
                lhs: width,
                rhs: lz,
                size,
            }));
        idx
    } else {
        let tz = emit(stmts, Op::Tzcnt(Tzcnt { value: src, size }));
        tz
    };

    let zero = emit(stmts, Op::Constant(Constant { value: 0, size }));
    // CmpFlags needs a result ref (the flags value); the Select then reads NZCV
    // by condition code. Sets ZF iff src == 0.
    let flags = emit(stmts, Op::CmpFlags(CmpFlags {
            lhs: src,
            rhs: zero,
            size,
        }));
    let result = emit(stmts, Op::Select(Select {
            cc: CondCode::Eq,
            true_value: old,
            false_value: count,
            size,
        }));
    emit_void(stmts, Op::StoreReg(StoreReg {
            reg: dst_reg,
            value: result,
            size,
        }));
    proof {
        let sp: int = s0.len() as int;
        let head = seq![def(sp, op_ld_reg(rm_reg(modrm, *prefixes), size)), def(sp + 1, op_ld_reg(reg_reg(modrm, *prefixes), size))];
        let n: int = if is_bsr { sp + 5 } else { sp + 3 };
        let c: int = if is_bsr { sp + 4 } else { sp + 2 };
        let tail = seq![
            def(n, op_const(0, size)),
            def(n + 1, Op::CmpFlags(CmpFlags { lhs: sp as u32, rhs: n as u32, size })),
            def(n + 2, Op::Select(Select { cc: CondCode::Eq, true_value: (sp + 1) as u32, false_value: c as u32, size })),
            eff(op_st_reg(reg_reg(modrm, *prefixes), n + 2, size)),
        ];
        if is_bsr {
            assert(stmts@ =~= s0 + (head + seq![
                def(sp + 2, Op::Lzcnt(Lzcnt { value: sp as u32, size })),
                def(sp + 3, op_const((size.spec_bit_width() - 1) as u64, size)),
                def(sp + 4, op_bin(BinOpKind::Sub, sp + 3, sp + 2, size)),
            ] + tail));
        } else {
            assert(stmts@ =~= s0 + (head + seq![def(sp + 2, Op::Tzcnt(Tzcnt { value: sp as u32, size }))] + tail));
        }
    }
    Ok(2)
}

#[verifier::spinoff_prover]
pub(crate) fn decode_bswap(
    prefixes: &PrefixSet,
    opcode: u8,
    stmts: &mut Vec<Stmt>,
) -> (res: Result<usize, DecodeError>)
    requires
        room(old(stmts)@),
        ssa_wf(old(stmts)@),
    ensures
        ssa_wf(final(stmts)@),
        old(stmts).len() <= final(stmts).len() <= old(stmts).len() + 0x100,
        res matches Ok(n) ==> 1 <= n <= 16,
        lowered(bswap_code(*prefixes, opcode, old(stmts).len() as int), old(stmts)@, final(stmts)@, res),
{
    if prefixes.rep.is_some() || prefixes.lock || prefixes.segment.is_some() {
        return Err(DecodeError::UnsupportedOpcode(opcode));
    }

    let size = operand_size(prefixes, true);
    if size == OpSize::I16 {
        return Err(DecodeError::UnsupportedOpcode(opcode));
    }

    let reg = map_reg(opcode & 0x07, &prefixes.rex, false);
    let ghost s0 = stmts@;
    let src = emit(stmts, Op::LoadReg(LoadReg { reg, size }));

    let result = emit(stmts, Op::Bswap(Bswap { value: src, size }));
    emit_void(stmts, Op::StoreReg(StoreReg {
            reg,
            value: result,
            size,
        }));
    proof {
        let sp: int = s0.len() as int;
        assert(stmts@ =~= s0 + seq![
            def(sp, op_ld_reg(reg, size)),
            def(sp + 1, Op::Bswap(Bswap { value: sp as u32, size })),
            eff(op_st_reg(reg, sp + 1, size)),
        ]);
    }
    Ok(1)
}

#[verifier::spinoff_prover]
pub(crate) fn decode_movbe(
    prefixes: &PrefixSet,
    opcode: u8,
    bytes: &[u8],
    cursor: usize,
    stmts: &mut Vec<Stmt>,
) -> (res: Result<usize, DecodeError>)
    requires
        cursor < bytes.len(),
        bytes.len() <= isize::MAX,
        room(old(stmts)@),
        ssa_wf(old(stmts)@),
    ensures
        ssa_wf(final(stmts)@),
        old(stmts).len() <= final(stmts).len() <= old(stmts).len() + 0x100,
        res matches Ok(n) ==> 1 <= n <= 16,
        lowered(movbe_code(*prefixes, opcode, bytes@, cursor as int, old(stmts).len() as int), old(stmts)@, final(stmts)@, res),
{
    if prefixes.rep.is_some() || prefixes.lock || prefixes.segment.is_some() {
        return Err(DecodeError::UnsupportedOpcode(opcode));
    }

    let size = operand_size(prefixes, true);
    let (modrm, _after) = modrm::parse_modrm(bytes, cursor + 1)?;
    if modrm.mod_ == 3 {
        return Err(DecodeError::UnsupportedOpcode(opcode));
    }

    let reg = map_reg(modrm.reg, &prefixes.rex, true);
    let ghost s0 = stmts@;
    let (addr, used) = emit_addr_with_size(modrm, prefixes, bytes, cursor + 1, stmts)?;

    if opcode == 0xF0 {
        let loaded = emit(stmts, Op::LoadMem(LoadMem { addr, size }));
        let swapped = emit(stmts, Op::Bswap(Bswap {
                value: loaded,
                size,
            }));
        emit_void(stmts, Op::StoreReg(StoreReg {
                reg,
                value: swapped,
                size,
            }));
    } else {
        let loaded = emit(stmts, Op::LoadReg(LoadReg { reg, size }));
        let swapped = emit(stmts, Op::Bswap(Bswap {
                value: loaded,
                size,
            }));
        emit_void(stmts, Op::StoreMem(StoreMem {
                addr,
                value: swapped,
                size,
            }));
    }

    proof {
        let c = addr_code(mem_operand(modrm, *prefixes, bytes@, cursor + 1)->Ok_0, 0, s0.len() as int);
        let k: int = s0.len() as int + c.0.len();
        if opcode == 0xF0 {
            assert(stmts@ =~= s0 + (c.0 + seq![def(k, op_ld_mem(c.1, size)), def(k + 1, Op::Bswap(Bswap { value: k as u32, size })),
                eff(op_st_reg(reg_reg(modrm, *prefixes), k + 1, size))]));
        } else {
            assert(stmts@ =~= s0 + (c.0 + seq![def(k, op_ld_reg(reg_reg(modrm, *prefixes), size)), def(k + 1, Op::Bswap(Bswap { value: k as u32, size })),
                eff(op_st_mem(c.1, k + 1, size))]));
        }
    }
    Ok(2 + used)
}

#[verifier::spinoff_prover]
pub(crate) fn decode_crc32c(
    prefixes: &PrefixSet,
    opcode: u8,
    bytes: &[u8],
    cursor: usize,
    stmts: &mut Vec<Stmt>,
) -> (res: Result<usize, DecodeError>)
    requires
        cursor < bytes.len(),
        bytes.len() <= isize::MAX,
        room(old(stmts)@),
        ssa_wf(old(stmts)@),
    ensures
        ssa_wf(final(stmts)@),
        old(stmts).len() <= final(stmts).len() <= old(stmts).len() + 0x100,
        res matches Ok(n) ==> 1 <= n <= 16,
        lowered(crc32c_code(*prefixes, opcode, bytes@, cursor as int, old(stmts).len() as int), old(stmts)@, final(stmts)@, res),
{
    if prefixes.rep != Some(0xF2) || prefixes.lock || prefixes.segment.is_some() {
        return Err(DecodeError::UnsupportedOpcode(opcode));
    }

    let (modrm, _after) = modrm::parse_modrm(bytes, cursor + 1)?;
    let mut dst_size = OpSize::I32;
    let src_size = if opcode == 0xF0 {
        OpSize::I8
    } else if prefixes.operand_override {
        OpSize::I16
    } else if prefixes.rex.w {
        dst_size = OpSize::I64;
        OpSize::I64
    } else {
        OpSize::I32
    };

    let dst_reg = map_reg(modrm.reg, &prefixes.rex, true);
    let ghost s0 = stmts@;
    let crc = emit(stmts, Op::LoadReg(LoadReg {
            reg: dst_reg,
            size: dst_size,
        }));
    let (data, _addr, used) = emit_rm_load(modrm, prefixes, bytes, cursor + 1, 0, src_size, stmts)?;
    let result = emit(stmts, Op::Crc32c(Crc32c {
            crc,
            data,
            data_size: src_size,
        }));
    emit_void(stmts, Op::StoreReg(StoreReg {
            reg: dst_reg,
            value: result,
            size: dst_size,
        }));
    proof {
        let r = rm_load(modrm, *prefixes, bytes@, cursor + 1, 0, src_size, s0.len() + 1int);
        let k: int = s0.len() as int + 1 + r.0.len();
        assert(stmts@ =~= s0 + (seq![def(s0.len() as int, op_ld_reg(reg_reg(modrm, *prefixes), dst_size))] + r.0 + seq![
            def(k, Op::Crc32c(Crc32c { crc: s0.len() as u32, data: r.1 as u32, data_size: src_size })),
            eff(op_st_reg(reg_reg(modrm, *prefixes), k, dst_size)),
        ]));
    }
    Ok(2 + used)
}

} // verus!
