//! Statement emission helpers shared by the instruction handlers.
//!
//! Every emitted statement that defines a value takes its own position in the
//! statement list as its ref, and only reads refs defined before it.

use vstd::prelude::*;

use crate::decoder::modrm::{self, AddrMode, ModRm, Sib};
use crate::decoder::prefixes::{PrefixSet, RexPrefix};
use crate::decoder::DecodeError;
use crate::ir::{op_reads, BinOp, BinOpKind, Constant, Gpr, LoadMem, LoadReg, Op, OpSize, Ref, Stmt, StoreMem, StoreReg};

verus! {

/// Statement `st` at position `i` defines at most the ref `i` and reads
/// only refs below `i`.
pub open spec fn stmt_wf(st: Stmt, i: int) -> bool {
    &&& (st.result is None || st.result == Some(i as u32))
    &&& forall|r: Ref| #[trigger] op_reads(st.op, r) ==> r < i
}

/// The statements form well-numbered SSA: each result is its own position
/// and every operand names an earlier statement's result position, a
/// statement that defines that ref.
pub open spec fn ssa_wf(s: Seq<Stmt>) -> bool {
    &&& forall|i: int| 0 <= i < s.len() ==> stmt_wf(#[trigger] s[i], i)
    &&& forall|i: int, r: Ref| 0 <= i < s.len() && #[trigger] op_reads(s[i].op, r) ==> reads_defined_ref(s, r)
}

/// `r` is the position of a statement of `s` that defines `r`.
pub open spec fn reads_defined_ref(s: Seq<Stmt>, r: Ref) -> bool {
    r < s.len() && s[r as int].result == Some(r)
}

/// Statements a handler may already hold when it starts.
pub open spec fn room(s: Seq<Stmt>) -> bool {
    s.len() <= 0x1000
}

/// Every operand the op reads names a statement of `s` that defines it.
pub open spec fn reads_defined(op: Op, s: Seq<Stmt>) -> bool {
    forall|r: Ref| #[trigger] op_reads(op, r) ==> reads_defined_ref(s, r)
}

/// Push `op` as a new value; its ref is its position.
pub(crate) fn emit(stmts: &mut Vec<Stmt>, op: Op) -> (r: Ref)
    requires
        old(stmts).len() < 0x1_0000,
        ssa_wf(old(stmts)@),
        reads_defined(op, old(stmts)@),
    ensures
        r == old(stmts).len(),
        final(stmts)@ == old(stmts)@.push(Stmt { result: Some(r), op }),
        ssa_wf(final(stmts)@),
{
    let r = stmts.len() as u32;
    stmts.push(Stmt::new(Some(r), op));
    proof {
        assert(stmts@.last() == Stmt { result: Some(r), op });
        assert forall|i: int| 0 <= i < stmts@.len() implies stmt_wf(#[trigger] stmts@[i], i) by {
            if i < stmts@.len() - 1 {
                assert(stmts@[i] == old(stmts)@[i]);
            }
        }
    }
    r
}

/// Push `op` as a statement without a result.
pub(crate) fn emit_void(stmts: &mut Vec<Stmt>, op: Op)
    requires
        old(stmts).len() < 0x1_0000,
        ssa_wf(old(stmts)@),
        reads_defined(op, old(stmts)@),
    ensures
        final(stmts)@ == old(stmts)@.push(Stmt { result: None, op }),
        ssa_wf(final(stmts)@),
{
    stmts.push(Stmt::new(None, op));
    proof {
        assert forall|i: int| 0 <= i < stmts@.len() implies stmt_wf(#[trigger] stmts@[i], i) by {
            if i < stmts@.len() - 1 {
                assert(stmts@[i] == old(stmts)@[i]);
            }
        }
    }
}

/// The byte at `i`, or `Truncated` when it is missing.
pub(crate) fn byte_at(bytes: &[u8], i: usize) -> (r: Result<u8, DecodeError>)
    ensures
        i < bytes.len() ==> r == Ok::<u8, DecodeError>(bytes@[i as int]),
        i >= bytes.len() ==> r == Err::<u8, DecodeError>(DecodeError::Truncated),
{
    if i < bytes.len() {
        Ok(bytes[i])
    } else {
        Err(DecodeError::Truncated)
    }
}

/// The little-endian value of the `n` bytes at `i`.
pub open spec fn le_value(b: Seq<u8>, i: int, n: nat) -> nat
    decreases n,
{
    if n == 0 {
        0
    } else {
        b[i] as nat + 0x100 * le_value(b, i + 1, (n - 1) as nat)
    }
}

/// `256` to the power `n`.
pub open spec fn pow256(n: nat) -> nat
    decreases n,
{
    if n == 0 {
        1
    } else {
        0x100 * pow256((n - 1) as nat)
    }
}

proof fn lemma_le_value_bound(b: Seq<u8>, i: int, n: nat)
    ensures
        le_value(b, i, n) < pow256(n),
    decreases n,
{
    if n > 0 {
        lemma_le_value_bound(b, i + 1, (n - 1) as nat);
    }
}

proof fn lemma_pow256_mono(a: nat, b: nat)
    requires
        a <= b,
    ensures
        pow256(a) <= pow256(b),
    decreases b,
{
    if a < b {
        lemma_pow256_mono(a, (b - 1) as nat);
    }
}

/// Read an `n`-byte little-endian immediate at `offset`.
pub(crate) fn read_imm(bytes: &[u8], offset: usize, n: usize) -> (r: Result<u64, DecodeError>)
    requires
        n <= 8,
    ensures
        offset + n <= bytes.len() ==> r == Ok::<u64, DecodeError>(le_value(bytes@, offset as int, n as nat) as u64),
        offset + n > bytes.len() ==> r == Err::<u64, DecodeError>(DecodeError::Truncated),
        r matches Ok(v) ==> v as nat == le_value(bytes@, offset as int, n as nat) && (v as nat) < pow256(n as nat),
        r matches Ok(v) ==> (n == 1 ==> v < 0x100) && (n == 2 ==> v < 0x1_0000) && (n == 4 ==> v < 0x1_0000_0000),
{
    if offset > bytes.len() || bytes.len() - offset < n {
        return Err(DecodeError::Truncated);
    }
    let mut v: u64 = 0;
    let mut k = n;
    proof {
        reveal_with_fuel(pow256, 9);
        assert(pow256(8) == 0x1_0000_0000_0000_0000);
    }
    while k > 0
        invariant
            k <= n <= 8,
            offset + n <= bytes.len(),
            v as nat == le_value(bytes@, offset + k, (n - k) as nat),
            pow256(8) == 0x1_0000_0000_0000_0000,
        decreases k,
    {
        k = k - 1;
        proof {
            lemma_le_value_bound(bytes@, offset + k + 1, (n - k - 1) as nat);
            lemma_pow256_mono((n - k) as nat, 8);
            assert(pow256((n - k) as nat) == 0x100 * pow256((n - k - 1) as nat));
        }
        v = v * 0x100 + bytes[offset + k] as u64;
    }
    proof {
        lemma_le_value_bound(bytes@, offset as int, n as nat);
        reveal_with_fuel(pow256, 5);
    }
    Ok(v)
}

/// Register map from a 3-bit register index extended by REX.B.
pub(crate) fn map_reg_raw(idx: u8, rex: &RexPrefix) -> (g: Gpr)
    ensures
        g == modrm::ext_reg(idx, rex.b),
{
    map_reg(idx, rex, false)
}

/// Register map from a 3-bit field extended by REX.R (reg field) or REX.B.
pub(crate) fn map_reg(idx: u8, rex: &RexPrefix, is_reg_field: bool) -> (g: Gpr)
    ensures
        g == modrm::ext_reg(idx, if is_reg_field { rex.r } else { rex.b }),
{
    let ext = if is_reg_field { rex.r } else { rex.b };
    let hi: u8 = if ext { 8 } else { 0 };
    modrm::gpr_from_index((idx & 0x7) | hi)
}

/// The bytes the ModR/M byte at `cursor` and its SIB and displacement take,
/// as the mod and rm fields (and the SIB base, when there is one) say.
pub open spec fn modrm_len(m: ModRm, sib_base: u8) -> int {
    if m.rm == 4 {
        2 + (if m.mod_ == 0 && sib_base == 5 { 4int } else if m.mod_ == 1 { 1int } else if m.mod_ == 2 { 4int } else { 0int })
    } else if m.mod_ == 0 && m.rm == 5 {
        5
    } else {
        1 + (if m.mod_ == 1 { 1int } else if m.mod_ == 2 { 4int } else { 0int })
    }
}

/// Bytes taken by the ModR/M byte at `cursor` with its SIB and displacement.
pub(crate) fn bytes_for_modrm(modrm: &ModRm, bytes: &[u8], cursor: usize) -> (r: Result<usize, DecodeError>)
    requires
        cursor < bytes.len(),
    ensures
        match r {
            Ok(n) => 1 <= n <= 6 && (modrm.rm == 4 ==> cursor + 1 < bytes.len()
                && n == modrm_len(*modrm, bytes@[cursor + 1] & 0x7)) && (modrm.rm != 4 ==> n == modrm_len(*modrm, 0)),
            Err(e) => e == DecodeError::Truncated && modrm.rm == 4 && cursor + 1 >= bytes.len(),
        },
{
    let mut total: usize = 1;
    if modrm.rm == 4 {
        total = total + 1;
        let sib_byte = byte_at(bytes, cursor + 1)?;
        let base = sib_byte & 0x7;
        if modrm.mod_ == 0 && base == 5 {
            total = total + 4;
        } else if modrm.mod_ == 1 {
            total = total + 1;
        } else if modrm.mod_ == 2 {
            total = total + 4;
        }
    } else if modrm.mod_ == 0 && modrm.rm == 5 {
        total = total + 4;
    } else if modrm.mod_ == 1 {
        total = total + 1;
    } else if modrm.mod_ == 2 {
        total = total + 4;
    }
    Ok(total)
}

/// A 64-bit register read defining ref `r`.
pub open spec fn load64(reg: Gpr, r: int) -> Stmt {
    Stmt { result: Some(r as u32), op: Op::LoadReg(LoadReg { reg, size: OpSize::I64 }) }
}

/// A 64-bit constant defining ref `r`.
pub open spec fn const64(value: u64, r: int) -> Stmt {
    Stmt { result: Some(r as u32), op: Op::Constant(Constant { value, size: OpSize::I64 }) }
}

/// A 64-bit binary operation defining ref `r`.
pub open spec fn bin64(op: BinOpKind, lhs: int, rhs: int, r: int) -> Stmt {
    Stmt { result: Some(r as u32), op: Op::BinOp(BinOp { op, lhs: lhs as u32, rhs: rhs as u32, size: OpSize::I64 }) }
}

/// Adding `disp` to the value `base` with the next free ref `s`: nothing
/// when `disp` is zero, else a constant and an addition. Gives the
/// statements and the ref of the sum.
pub closed spec fn disp_code(base: int, disp: i64, s: int) -> (Seq<Stmt>, int) {
    if disp == 0 {
        (Seq::empty(), base)
    } else {
        (seq![const64(disp as u64, s), bin64(BinOpKind::Add, base, s, s + 1)], s + 1)
    }
}

/// The statements that compute the address `addr` when the list holds `s`
/// statements (RIP-relative forms counting from `rip_after`), and the ref
/// of the address.
pub closed spec fn addr_code(addr: AddrMode, rip_after: u64, s: int) -> (Seq<Stmt>, int) {
    match addr {
        AddrMode::BaseDisp { base, disp } => {
            let d = disp_code(s, disp, s + 1);
            (seq![load64(base, s)] + d.0, d.1)
        },
        AddrMode::Indexed { base, index, scale, disp } => {
            let scaled: (Seq<Stmt>, int, int) = if scale == 1 {
                (Seq::empty(), s, s + 1)
            } else {
                (seq![const64(scale.trailing_zeros() as u64, s + 1), bin64(BinOpKind::Shl, s, s + 1, s + 2)], s + 2, s + 3)
            };
            let based: (Seq<Stmt>, int, int) = match base {
                None => (Seq::empty(), scaled.1, scaled.2),
                Some(b) => (seq![load64(b, scaled.2), bin64(BinOpKind::Add, scaled.2, scaled.1, scaled.2 + 1)], scaled.2 + 1, scaled.2 + 2),
            };
            let d = disp_code(based.1, disp, based.2);
            (seq![load64(index, s)] + scaled.0 + based.0 + d.0, d.1)
        },
        AddrMode::RipRelative { disp } => (seq![const64(spec_add_signed_disp(rip_after, disp), s)], s),
        AddrMode::Absolute { disp } => (seq![const64(disp as u64, s)], s),
        AddrMode::Register(reg) => (seq![load64(reg, s)], s),
    }
}

/// The SIB byte of a memory operand whose ModR/M byte is at `cursor`, if
/// its r/m field asks for one.
pub closed spec fn sib_at(m: ModRm, b: Seq<u8>, cursor: int) -> Option<Sib> {
    if m.mod_ != 3 && m.rm == 4 {
        Some(modrm::sib_of(b[cursor + 1]))
    } else {
        None
    }
}

/// The address of the memory operand whose ModR/M byte `m` is at `cursor`,
/// or the error reading it gives.
pub closed spec fn mem_operand(m: ModRm, p: PrefixSet, b: Seq<u8>, cursor: int) -> Result<AddrMode, DecodeError> {
    if m.rm == 4 && cursor + 1 >= b.len() {
        Err(DecodeError::Truncated)
    } else {
        let sib = sib_at(m, b, cursor);
        let disp_offset = cursor + 1 + (if sib is Some { 1int } else { 0int });
        match modrm::spec_decode_addr(m, sib, p, b, disp_offset) {
            Ok((a, _)) => Ok(a),
            Err(e) => Err(e),
        }
    }
}

/// The bytes the ModR/M byte at `cursor` takes with its SIB and
/// displacement.
pub open spec fn modrm_bytes(m: ModRm, b: Seq<u8>, cursor: int) -> int {
    modrm_len(m, if m.rm == 4 { b[cursor + 1] & 0x7 } else { 0 })
}

/// A statement defining ref `r`.
pub open spec fn def(r: int, op: Op) -> Stmt {
    Stmt { result: Some(r as u32), op }
}

/// A statement without a result.
pub open spec fn eff(op: Op) -> Stmt {
    Stmt { result: None, op }
}

/// Read register `reg`.
pub open spec fn op_ld_reg(reg: Gpr, size: OpSize) -> Op {
    Op::LoadReg(LoadReg { reg, size })
}

/// Load from the address in ref `addr`.
pub open spec fn op_ld_mem(addr: int, size: OpSize) -> Op {
    Op::LoadMem(LoadMem { addr: addr as u32, size })
}

/// The constant `value`.
pub open spec fn op_const(value: u64, size: OpSize) -> Op {
    Op::Constant(Constant { value, size })
}

/// `op` of the refs `lhs` and `rhs`.
pub open spec fn op_bin(op: BinOpKind, lhs: int, rhs: int, size: OpSize) -> Op {
    Op::BinOp(BinOp { op, lhs: lhs as u32, rhs: rhs as u32, size })
}

/// Write ref `value` to register `reg`.
pub open spec fn op_st_reg(reg: Gpr, value: int, size: OpSize) -> Op {
    Op::StoreReg(StoreReg { reg, value: value as u32, size })
}

/// Store ref `value` at the address in ref `addr`.
pub open spec fn op_st_mem(addr: int, value: int, size: OpSize) -> Op {
    Op::StoreMem(StoreMem { addr: addr as u32, value: value as u32, size })
}

/// The register the r/m field of `m` names (extended by REX.B).
pub open spec fn rm_reg(m: ModRm, p: PrefixSet) -> Gpr {
    modrm::ext_reg(m.rm, p.rex.b)
}

/// The register the reg field of `m` names (extended by REX.R).
pub open spec fn reg_reg(m: ModRm, p: PrefixSet) -> Gpr {
    modrm::ext_reg(m.reg, p.rex.r)
}

/// The r/m operand of the ModR/M byte `m` at `cursor` can be read: it is a
/// register, or its address decodes.
pub open spec fn rm_ok(m: ModRm, p: PrefixSet, b: Seq<u8>, cursor: int) -> bool {
    m.mod_ == 3 || mem_operand(m, p, b, cursor) is Ok
}

/// Reading the r/m operand of the ModR/M byte `m` at `cursor` when the list
/// holds `s` statements: a register read for mod=3, else the address code
/// and a load. Gives the statements, the ref of the value and the ref of
/// the address (meaningful for memory only).
pub open spec fn rm_load(m: ModRm, p: PrefixSet, b: Seq<u8>, cursor: int, rip_after: u64, size: OpSize, s: int) -> (Seq<Stmt>, int, int) {
    if m.mod_ == 3 {
        (seq![def(s, op_ld_reg(rm_reg(m, p), size))], s, s)
    } else {
        let c = addr_code(mem_operand(m, p, b, cursor)->Ok_0, rip_after, s);
        let k = s + c.0.len();
        (c.0 + seq![def(k, op_ld_mem(c.1, size))], k, c.1)
    }
}

/// Writing ref `v` back to the r/m operand `rm_load` read (address `addr`).
pub open spec fn rm_store(m: ModRm, p: PrefixSet, size: OpSize, addr: int, v: int) -> Stmt {
    if m.mod_ == 3 {
        eff(op_st_reg(rm_reg(m, p), v, size))
    } else {
        eff(op_st_mem(addr, v, size))
    }
}

/// Bytes the r/m operand whose ModR/M byte is at `cursor` takes: the
/// ModR/M byte alone for a register, else with its SIB and displacement.
pub open spec fn rm_used(m: ModRm, b: Seq<u8>, cursor: int) -> int {
    if m.mod_ == 3 {
        1
    } else {
        modrm_bytes(m, b, cursor)
    }
}

/// Bytes an instruction of one opcode byte with an r/m operand takes.
pub open spec fn rm_insn_len(m: ModRm, b: Seq<u8>, cursor: int) -> int {
    1 + rm_used(m, b, cursor)
}

/// Read the r/m operand of the ModR/M byte `modrm` at `cursor`: returns the
/// refs of the value and of its address (for memory), and the bytes the
/// operand takes.
pub(crate) fn emit_rm_load(modrm: ModRm, prefixes: &PrefixSet, bytes: &[u8], cursor: usize, rip_after: u64, size: OpSize, stmts: &mut Vec<Stmt>) -> (r: Result<(Ref, Ref, usize), DecodeError>)
    requires
        cursor < bytes.len(),
        bytes.len() <= isize::MAX,
        old(stmts).len() <= 0x8000,
        ssa_wf(old(stmts)@),
    ensures
        ssa_wf(final(stmts)@),
        old(stmts).len() <= final(stmts).len() <= old(stmts).len() + 9,
        rm_ok(modrm, *prefixes, bytes@, cursor as int) ==> {
            let l = rm_load(modrm, *prefixes, bytes@, cursor as int, rip_after, size, old(stmts).len() as int);
            &&& r == Ok::<(Ref, Ref, usize), DecodeError>((l.1 as u32, l.2 as u32, rm_used(modrm, bytes@, cursor as int) as usize))
            &&& final(stmts)@ == old(stmts)@ + l.0
            &&& l.1 < final(stmts).len()
            &&& l.2 < final(stmts).len()
            &&& 1 <= rm_used(modrm, bytes@, cursor as int) <= 6
        },
        !rm_ok(modrm, *prefixes, bytes@, cursor as int) ==> r == Err::<(Ref, Ref, usize), DecodeError>(mem_operand(modrm, *prefixes, bytes@, cursor as int)->Err_0),
        r is Ok ==> rm_ok(modrm, *prefixes, bytes@, cursor as int),
        r matches Ok((v, a, u)) ==> reads_defined_ref(final(stmts)@, v) && reads_defined_ref(final(stmts)@, a) && 1 <= u <= 6,
{
    if modrm.mod_ == 3 {
        let reg = map_reg(modrm.rm, &prefixes.rex, false);
        let v = emit(stmts, Op::LoadReg(LoadReg { reg, size }));
        Ok((v, v, 1))
    } else {
        let (addr, used) = emit_addr_with_size_at(modrm, prefixes, bytes, cursor, rip_after, stmts)?;
        let v = emit(stmts, Op::LoadMem(LoadMem { addr, size }));
        Ok((v, addr, used))
    }
}

/// Write `value` back to the r/m operand `emit_rm_load` read.
pub(crate) fn emit_rm_store(modrm: ModRm, prefixes: &PrefixSet, size: OpSize, addr: Ref, value: Ref, stmts: &mut Vec<Stmt>)
    requires
        old(stmts).len() < 0x1_0000,
        ssa_wf(old(stmts)@),
        reads_defined_ref(old(stmts)@, addr),
        reads_defined_ref(old(stmts)@, value),
    ensures
        ssa_wf(final(stmts)@),
        final(stmts)@ == old(stmts)@.push(rm_store(modrm, *prefixes, size, addr as int, value as int)),
{
    if modrm.mod_ == 3 {
        let reg = map_reg(modrm.rm, &prefixes.rex, false);
        emit_void(stmts, Op::StoreReg(StoreReg { reg, value, size }));
    } else {
        emit_void(stmts, Op::StoreMem(StoreMem { addr, value, size }));
    }
}

/// Writing the ref `v` to the r/m operand of the ModR/M byte `m` at `mc`
/// when the list holds `s` statements: a register write for mod=3, else the
/// address code and a store.
pub open spec fn rm_write_code(p: PrefixSet, m: ModRm, b: Seq<u8>, mc: int, size: OpSize, v: int, s: int) -> Seq<Stmt> {
    if m.mod_ == 3 {
        seq![eff(op_st_reg(rm_reg(m, p), v, size))]
    } else {
        let c = addr_code(mem_operand(m, p, b, mc)->Ok_0, 0, s);
        c.0 + seq![eff(op_st_mem(c.1, v, size))]
    }
}

/// Write `value` to the r/m operand of the ModR/M byte at `mc`; returns the
/// bytes the operand takes.
#[verifier::spinoff_prover]
pub(crate) fn emit_rm_write(
    prefixes: &PrefixSet,
    modrm: ModRm,
    bytes: &[u8],
    mc: usize,
    size: OpSize,
    value: Ref,
    stmts: &mut Vec<Stmt>,
) -> (res: Result<usize, DecodeError>)
    requires
        mc < bytes.len(),
        bytes.len() <= isize::MAX,
        old(stmts).len() <= 0x1010,
        ssa_wf(old(stmts)@),
        reads_defined_ref(old(stmts)@, value),
    ensures
        ssa_wf(final(stmts)@),
        old(stmts).len() <= final(stmts).len() <= old(stmts).len() + 0x10,
        rm_ok(modrm, *prefixes, bytes@, mc as int) ==> res == Ok::<usize, DecodeError>(rm_used(modrm, bytes@, mc as int) as usize)
            && final(stmts)@ == old(stmts)@ + rm_write_code(*prefixes, modrm, bytes@, mc as int, size, value as int, old(stmts).len() as int),
        !rm_ok(modrm, *prefixes, bytes@, mc as int) ==> res == Err::<usize, DecodeError>(mem_operand(modrm, *prefixes, bytes@, mc as int)->Err_0),
        res matches Ok(u) ==> 1 <= u <= 6,
{
    if modrm.mod_ == 3 {
        let reg = map_reg(modrm.rm, &prefixes.rex, false);
        emit_void(stmts, Op::StoreReg(StoreReg { reg, value, size }));
        Ok(1)
    } else {
        let ghost s0 = stmts@;
        let (addr, used) = emit_addr_with_size(modrm, prefixes, bytes, mc, stmts)?;
        emit_void(stmts, Op::StoreMem(StoreMem { addr, value, size }));
        proof {
            let c = addr_code(mem_operand(modrm, *prefixes, bytes@, mc as int)->Ok_0, 0, s0.len() as int);
            assert(stmts@ =~= s0 + (c.0 + seq![eff(op_st_mem(c.1, value as int, size))]));
        }
        Ok(used)
    }
}

/// Emit the address an r/m memory operand names; returns its ref and the
/// bytes the ModR/M, SIB and displacement take.
pub(crate) fn emit_addr_with_size(modrm: ModRm, prefixes: &PrefixSet, bytes: &[u8], cursor: usize, stmts: &mut Vec<Stmt>) -> (r: Result<(Ref, usize), DecodeError>)
    requires
        cursor < bytes.len(),
        bytes.len() <= isize::MAX,
        old(stmts).len() <= 0x8000,
        ssa_wf(old(stmts)@),
    ensures
        ssa_wf(final(stmts)@),
        old(stmts).len() <= final(stmts).len() <= old(stmts).len() + 8,
        r matches Ok((a, n)) ==> reads_defined_ref(final(stmts)@, a) && 1 <= n <= 6,
        addr_emitted(modrm, *prefixes, bytes@, cursor as int, 0, old(stmts)@, final(stmts)@, r),
{
    emit_addr_with_size_at(modrm, prefixes, bytes, cursor, 0, stmts)
}

/// What emitting the memory operand at `cursor` did: on success the address
/// code was appended and its ref and the operand's length returned; on an
/// error nothing was appended.
pub open spec fn addr_emitted(m: ModRm, p: PrefixSet, b: Seq<u8>, cursor: int, rip_after: u64, before: Seq<Stmt>, after: Seq<Stmt>, r: Result<(Ref, usize), DecodeError>) -> bool {
    match mem_operand(m, p, b, cursor) {
        Ok(a) => {
            let c = addr_code(a, rip_after, before.len() as int);
            &&& r == Ok::<(Ref, usize), DecodeError>((c.1 as u32, modrm_bytes(m, b, cursor) as usize))
            &&& after == before + c.0
        },
        Err(e) => r == Err::<(Ref, usize), DecodeError>(e) && after == before,
    }
}

/// As `emit_addr_with_size`, with `rip_after` the address RIP-relative
/// operands count from.
pub(crate) fn emit_addr_with_size_at(modrm: ModRm, prefixes: &PrefixSet, bytes: &[u8], cursor: usize, rip_after: u64, stmts: &mut Vec<Stmt>) -> (r: Result<(Ref, usize), DecodeError>)
    requires
        cursor < bytes.len(),
        bytes.len() <= isize::MAX,
        old(stmts).len() <= 0x8000,
        ssa_wf(old(stmts)@),
    ensures
        ssa_wf(final(stmts)@),
        old(stmts).len() <= final(stmts).len() <= old(stmts).len() + 8,
        r matches Ok((a, n)) ==> reads_defined_ref(final(stmts)@, a) && 1 <= n <= 6,
        addr_emitted(modrm, *prefixes, bytes@, cursor as int, rip_after, old(stmts)@, final(stmts)@, r),
{
    let n = bytes_for_modrm(&modrm, bytes, cursor)?;
    let sib: Option<Sib> = if modrm.mod_ != 3 && modrm.rm == 4 {
        Some(modrm::parse_sib(bytes, cursor + 1)?.0)
    } else {
        None
    };
    let disp_offset = cursor + 1 + (if sib.is_some() { 1usize } else { 0usize });
    let (addr, _next) = match &sib {
        Some(s) => modrm::decode_addr(&modrm, Some(s), prefixes, bytes, disp_offset)?,
        None => modrm::decode_addr(&modrm, None, prefixes, bytes, disp_offset)?,
    };
    let addr_ref = emit_addr_mode_at(&addr, rip_after, stmts);
    Ok((addr_ref, n))
}

/// Emit the address `addr` names.
pub(crate) fn emit_addr_mode(addr: &AddrMode, stmts: &mut Vec<Stmt>) -> (r: Ref)
    requires
        old(stmts).len() < 0x1_0000 - 8,
        ssa_wf(old(stmts)@),
    ensures
        ssa_wf(final(stmts)@),
        old(stmts).len() <= r < final(stmts).len() <= old(stmts).len() + 7,
        reads_defined_ref(final(stmts)@, r),
        final(stmts)@ == old(stmts)@ + addr_code(*addr, 0, old(stmts).len() as int).0,
        r == addr_code(*addr, 0, old(stmts).len() as int).1,
{
    emit_addr_mode_at(addr, 0, stmts)
}

/// Emit the address `addr` names, RIP-relative forms counting from
/// `rip_after`.
pub(crate) fn emit_addr_mode_at(addr: &AddrMode, rip_after: u64, stmts: &mut Vec<Stmt>) -> (r: Ref)
    requires
        old(stmts).len() < 0x1_0000 - 8,
        ssa_wf(old(stmts)@),
    ensures
        ssa_wf(final(stmts)@),
        old(stmts).len() <= r < final(stmts).len() <= old(stmts).len() + 7,
        reads_defined_ref(final(stmts)@, r),
        final(stmts)@ == old(stmts)@ + addr_code(*addr, rip_after, old(stmts).len() as int).0,
        r == addr_code(*addr, rip_after, old(stmts).len() as int).1,
{
    match addr {
        AddrMode::BaseDisp { base, disp } => {
            let base_ref = emit_load_addr_reg(stmts, *base);
            emit_add_disp(stmts, base_ref, *disp)
        },
        AddrMode::Indexed { base, index, scale, disp } => emit_indexed_addr(*base, *index, *scale, *disp, stmts),
        AddrMode::RipRelative { disp } => emit_addr_const(stmts, add_signed_disp(rip_after, *disp)),
        AddrMode::Absolute { disp } => emit_addr_const(stmts, *disp as u64),
        AddrMode::Register(reg) => emit_load_addr_reg(stmts, *reg),
    }
}

/// Emit `base + (index << log2(scale)) + disp`.
fn emit_indexed_addr(base: Option<Gpr>, index: Gpr, scale: u8, disp: i64, stmts: &mut Vec<Stmt>) -> (r: Ref)
    requires
        old(stmts).len() < 0x1_0000 - 8,
        ssa_wf(old(stmts)@),
    ensures
        ssa_wf(final(stmts)@),
        old(stmts).len() <= r < final(stmts).len() <= old(stmts).len() + 7,
        reads_defined_ref(final(stmts)@, r),
        final(stmts)@ == old(stmts)@ + addr_code(AddrMode::Indexed { base, index, scale, disp }, 0, old(stmts).len() as int).0,
        r == addr_code(AddrMode::Indexed { base, index, scale, disp }, 0, old(stmts).len() as int).1,
{
    let index_ref = emit_load_addr_reg(stmts, index);
    let scaled_index = if scale == 1 {
        index_ref
    } else {
        let shift_ref = emit_addr_const(stmts, scale.trailing_zeros() as u64);
        emit_addr_binop(stmts, BinOpKind::Shl, index_ref, shift_ref)
    };
    let base_plus_index = match base {
        None => scaled_index,
        Some(b) => {
            let base_ref = emit_load_addr_reg(stmts, b);
            emit_addr_binop(stmts, BinOpKind::Add, base_ref, scaled_index)
        },
    };
    emit_add_disp(stmts, base_plus_index, disp)
}

/// `base + disp` with two's-complement wrap-around.
pub open spec fn spec_add_signed_disp(base: u64, disp: i64) -> u64 {
    (base + disp) as u64
}

/// Add a signed displacement to a 64-bit address, wrapping.
pub(crate) fn add_signed_disp(base: u64, disp: i64) -> (r: u64)
    ensures
        r == spec_add_signed_disp(base, disp),
{
    if disp >= 0 {
        assert((base + disp) as u64 == base.wrapping_add(disp as u64)) by (bit_vector)
            requires disp >= 0;
        base.wrapping_add(disp as u64)
    } else {
        let mag: u64 = if disp == i64::MIN { 0x8000_0000_0000_0000u64 } else { (-disp) as u64 };
        assert((base + disp) as u64 == base.wrapping_sub(mag)) by (bit_vector)
            requires disp < 0, mag == (if disp == i64::MIN { 0x8000_0000_0000_0000u64 } else { (-disp) as u64 });
        base.wrapping_sub(mag)
    }
}

/// Load a 64-bit register as an address component.
pub(crate) fn emit_load_addr_reg(stmts: &mut Vec<Stmt>, reg: Gpr) -> (r: Ref)
    requires
        old(stmts).len() < 0x1_0000,
        ssa_wf(old(stmts)@),
    ensures
        r == old(stmts).len(),
        final(stmts)@ == old(stmts)@.push(Stmt { result: Some(r), op: Op::LoadReg(LoadReg { reg, size: OpSize::I64 }) }),
        ssa_wf(final(stmts)@),
{
    emit(stmts, Op::LoadReg(LoadReg { reg, size: OpSize::I64 }))
}

/// A 64-bit constant address component.
pub(crate) fn emit_addr_const(stmts: &mut Vec<Stmt>, value: u64) -> (r: Ref)
    requires
        old(stmts).len() < 0x1_0000,
        ssa_wf(old(stmts)@),
    ensures
        r == old(stmts).len(),
        final(stmts)@ == old(stmts)@.push(Stmt { result: Some(r), op: Op::Constant(Constant { value, size: OpSize::I64 }) }),
        ssa_wf(final(stmts)@),
{
    emit(stmts, Op::Constant(Constant { value, size: OpSize::I64 }))
}

/// A 64-bit binary operation on address components.
pub(crate) fn emit_addr_binop(stmts: &mut Vec<Stmt>, op: BinOpKind, lhs: Ref, rhs: Ref) -> (r: Ref)
    requires
        old(stmts).len() < 0x1_0000,
        ssa_wf(old(stmts)@),
        reads_defined_ref(old(stmts)@, lhs),
        reads_defined_ref(old(stmts)@, rhs),
    ensures
        r == old(stmts).len(),
        final(stmts)@ == old(stmts)@.push(Stmt { result: Some(r), op: Op::BinOp(BinOp { op, lhs, rhs, size: OpSize::I64 }) }),
        ssa_wf(final(stmts)@),
{
    emit(stmts, Op::BinOp(BinOp { op, lhs, rhs, size: OpSize::I64 }))
}

/// `base_ref + disp`, or `base_ref` itself when `disp` is zero.
pub(crate) fn emit_add_disp(stmts: &mut Vec<Stmt>, base_ref: Ref, disp: i64) -> (r: Ref)
    requires
        old(stmts).len() < 0x1_0000 - 2,
        ssa_wf(old(stmts)@),
        reads_defined_ref(old(stmts)@, base_ref),
    ensures
        ssa_wf(final(stmts)@),
        disp == 0 ==> r == base_ref && final(stmts)@ == old(stmts)@,
        disp != 0 ==> r == old(stmts).len() + 1 && final(stmts).len() == old(stmts).len() + 2,
        final(stmts)@ == old(stmts)@ + disp_code(base_ref as int, disp, old(stmts).len() as int).0,
        r == disp_code(base_ref as int, disp, old(stmts).len() as int).1,
        reads_defined_ref(final(stmts)@, r),
{
    if disp == 0 {
        return base_ref;
    }
    let disp_ref = emit_addr_const(stmts, disp as u64);
    emit_addr_binop(stmts, BinOpKind::Add, base_ref, disp_ref)
}

} // verus!
