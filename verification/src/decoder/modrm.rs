//! ModR/M and SIB parsing and effective-address decoding.

use vstd::prelude::*;

use crate::decoder::prefixes::PrefixSet;
use crate::decoder::DecodeError;
use crate::ir::Gpr;

verus! {

/// Parsed ModR/M byte: addressing mode, opcode-extension, and r/m operand.
#[derive(Debug, Clone, Copy, PartialEq, Eq, Structural)]
pub struct ModRm {
    pub mod_: u8,
    pub reg: u8,
    pub rm: u8,
}

/// Parsed SIB byte: scale, index, and base.
#[derive(Debug, Clone, Copy, PartialEq, Eq, Structural)]
pub struct Sib {
    pub scale: u8,
    pub index: u8,
    pub base: u8,
}

/// Describes the effective address from ModR/M + SIB + displacement.
#[derive(Debug, Clone, PartialEq, Eq, Structural)]
pub enum AddrMode {
    /// Direct register (mod=3)
    Register(Gpr),
    /// [base + disp]
    BaseDisp { base: Gpr, disp: i64 },
    /// [base + index*scale + disp]
    Indexed { base: Option<Gpr>, index: Gpr, scale: u8, disp: i64 },
    /// [rip + disp32]
    RipRelative { disp: i64 },
    /// [disp] with no base and no index — a SIB with base field 0b101 (mod=0)
    /// and the no-index encoding. An absolute address.
    Absolute { disp: i64 },
}

/// The fields of a ModR/M byte.
pub open spec fn modrm_of(b: u8) -> ModRm {
    ModRm { mod_: (b >> 6u8) & 0x3, reg: (b >> 3u8) & 0x7, rm: b & 0x7 }
}

/// Parse a ModR/M byte from the instruction stream.
pub fn parse_modrm(bytes: &[u8], offset: usize) -> (r: Result<(ModRm, usize), DecodeError>)
    ensures
        offset < bytes.len() ==> r == Ok::<(ModRm, usize), DecodeError>((modrm_of(bytes@[offset as int]), (offset + 1) as usize)),
        offset >= bytes.len() ==> r == Err::<(ModRm, usize), DecodeError>(DecodeError::Truncated),
        r matches Ok((m, _)) ==> m.mod_ <= 3 && m.reg <= 7 && m.rm <= 7,
{
    if offset >= bytes.len() {
        return Err(DecodeError::Truncated);
    }
    let b = bytes[offset];
    assert((b >> 6u8) & 0x3 <= 3 && (b >> 3u8) & 0x7 <= 7 && b & 0x7 <= 7) by (bit_vector);
    Ok((ModRm { mod_: (b >> 6u8) & 0x3, reg: (b >> 3u8) & 0x7, rm: b & 0x7 }, offset + 1))
}

/// The fields of a SIB byte (the scale as a factor 1, 2, 4 or 8).
pub open spec fn sib_of(b: u8) -> Sib {
    let s = (b >> 6u8) & 0x3;
    Sib { scale: if s == 0 { 1 } else if s == 1 { 2 } else if s == 2 { 4 } else { 8 }, index: (b >> 3u8) & 0x7, base: b & 0x7 }
}

/// Parse a SIB byte from the instruction stream.
pub fn parse_sib(bytes: &[u8], offset: usize) -> (r: Result<(Sib, usize), DecodeError>)
    ensures
        offset < bytes.len() ==> r == Ok::<(Sib, usize), DecodeError>((sib_of(bytes@[offset as int]), (offset + 1) as usize)),
        offset >= bytes.len() ==> r == Err::<(Sib, usize), DecodeError>(DecodeError::Truncated),
{
    if offset >= bytes.len() {
        return Err(DecodeError::Truncated);
    }
    let b = bytes[offset];
    let s = (b >> 6u8) & 0x3;
    let scale: u8 = if s == 0 {
        1
    } else if s == 1 {
        2
    } else if s == 2 {
        4
    } else {
        8
    };
    Ok((Sib { scale, index: (b >> 3u8) & 0x7, base: b & 0x7 }, offset + 1))
}

/// The register with number `i` (0..=15).
pub open spec fn gpr_of(i: u8) -> Gpr {
    if i == 0 {
        Gpr::Rax
    } else if i == 1 {
        Gpr::Rcx
    } else if i == 2 {
        Gpr::Rdx
    } else if i == 3 {
        Gpr::Rbx
    } else if i == 4 {
        Gpr::Rsp
    } else if i == 5 {
        Gpr::Rbp
    } else if i == 6 {
        Gpr::Rsi
    } else if i == 7 {
        Gpr::Rdi
    } else if i == 8 {
        Gpr::R8
    } else if i == 9 {
        Gpr::R9
    } else if i == 10 {
        Gpr::R10
    } else if i == 11 {
        Gpr::R11
    } else if i == 12 {
        Gpr::R12
    } else if i == 13 {
        Gpr::R13
    } else if i == 14 {
        Gpr::R14
    } else {
        Gpr::R15
    }
}

/// Map a register number (low four bits) to a GPR.
pub fn gpr_from_index(reg: u8) -> (g: Gpr)
    ensures
        g == gpr_of(reg & 0xF),
{
    let i = reg & 0xF;
    if i == 0 {
        Gpr::Rax
    } else if i == 1 {
        Gpr::Rcx
    } else if i == 2 {
        Gpr::Rdx
    } else if i == 3 {
        Gpr::Rbx
    } else if i == 4 {
        Gpr::Rsp
    } else if i == 5 {
        Gpr::Rbp
    } else if i == 6 {
        Gpr::Rsi
    } else if i == 7 {
        Gpr::Rdi
    } else if i == 8 {
        Gpr::R8
    } else if i == 9 {
        Gpr::R9
    } else if i == 10 {
        Gpr::R10
    } else if i == 11 {
        Gpr::R11
    } else if i == 12 {
        Gpr::R12
    } else if i == 13 {
        Gpr::R13
    } else if i == 14 {
        Gpr::R14
    } else {
        Gpr::R15
    }
}

/// A 3-bit register field extended by a REX bit.
pub open spec fn ext_reg(field: u8, ext: bool) -> Gpr {
    gpr_of(((field & 0x7) | (if ext { 8u8 } else { 0u8 })) & 0xF)
}

fn gpr_from_ext(field: u8, ext: bool) -> (g: Gpr)
    ensures
        g == ext_reg(field, ext),
{
    let rex_ext: u8 = if ext { 8 } else { 0 };
    gpr_from_index((field & 0x7) | rex_ext)
}

/// The little-endian 32-bit value at `i`.
pub open spec fn le32(b: Seq<u8>, i: int) -> u32 {
    (b[i] + b[i + 1] * 0x100 + b[i + 2] * 0x1_0000 + b[i + 3] * 0x100_0000) as u32
}

/// The displacement a 32-bit field at `i` encodes (sign-extended).
pub open spec fn disp32_at(b: Seq<u8>, i: int) -> i64 {
    le32(b, i) as i32 as i64
}

fn read_disp8(bytes: &[u8], offset: usize) -> (r: Result<i8, DecodeError>)
    ensures
        offset < bytes.len() ==> r == Ok::<i8, DecodeError>(bytes@[offset as int] as i8),
        offset >= bytes.len() ==> r == Err::<i8, DecodeError>(DecodeError::Truncated),
{
    if offset >= bytes.len() {
        return Err(DecodeError::Truncated);
    }
    Ok(bytes[offset] as i8)
}

/// Read the little-endian 32-bit field at `offset` of `bytes`.
pub fn read_u32(bytes: &[u8], offset: usize) -> (r: Result<u32, DecodeError>)
    ensures
        offset + 4 <= bytes.len() ==> r == Ok::<u32, DecodeError>(le32(bytes@, offset as int)),
        offset + 4 > bytes.len() ==> r == Err::<u32, DecodeError>(DecodeError::Truncated),
{
    if offset > bytes.len() || bytes.len() - offset < 4 {
        return Err(DecodeError::Truncated);
    }
    let v: u32 = bytes[offset] as u32 + (bytes[offset + 1] as u32) * 0x100 + (bytes[offset + 2] as u32) * 0x1_0000
        + (bytes[offset + 3] as u32) * 0x100_0000;
    Ok(v)
}

fn read_disp32(bytes: &[u8], offset: usize) -> (r: Result<i64, DecodeError>)
    ensures
        offset + 4 <= bytes.len() ==> r == Ok::<i64, DecodeError>(disp32_at(bytes@, offset as int)),
        offset + 4 > bytes.len() ==> r == Err::<i64, DecodeError>(DecodeError::Truncated),
{
    let v = read_u32(bytes, offset)?;
    Ok(v as i32 as i64)
}

/// The address mode of a SIB form with the given base and displacement:
/// index field 0b100 without REX.X means no index.
pub open spec fn sib_mode(sib: Sib, p: PrefixSet, base: Option<Gpr>, disp: i64) -> AddrMode {
    if sib.index != 4 || p.rex.x {
        AddrMode::Indexed { base, index: ext_reg(sib.index, p.rex.x), scale: sib.scale, disp }
    } else {
        match base {
            Some(b) => AddrMode::BaseDisp { base: b, disp },
            None => AddrMode::Absolute { disp },
        }
    }
}

fn decode_sib_addr(sib: &Sib, prefixes: &PrefixSet, base: Option<Gpr>, disp: i64, next_offset: usize) -> (r: (AddrMode, usize))
    ensures
        r == (sib_mode(*sib, *prefixes, base, disp), next_offset),
{
    // A SIB index field of 0b100 means *no index register* — unless REX.X
    // is set, which makes it r12.
    let has_index = sib.index != 4 || prefixes.rex.x;
    let mode = if has_index {
        AddrMode::Indexed { base, index: gpr_from_ext(sib.index, prefixes.rex.x), scale: sib.scale, disp }
    } else {
        match base {
            Some(b) => AddrMode::BaseDisp { base: b, disp },
            None => AddrMode::Absolute { disp },
        }
    };
    (mode, next_offset)
}

/// The effective address a ModR/M (with its SIB, if any) encodes, reading
/// displacements at `offset`, and the offset after them.
pub open spec fn spec_decode_addr(m: ModRm, sib: Option<Sib>, p: PrefixSet, b: Seq<u8>, offset: int) -> Result<(AddrMode, int), DecodeError> {
    let trunc = Err::<(AddrMode, int), DecodeError>(DecodeError::Truncated);
    let no_sib = Err::<(AddrMode, int), DecodeError>(DecodeError::InvalidSib(offset as usize));
    if m.mod_ == 0 && m.rm == 4 {
        match sib {
            None => no_sib,
            Some(s) => if s.base == 5 {
                if offset + 4 <= b.len() { Ok((sib_mode(s, p, None, disp32_at(b, offset)), offset + 4)) } else { trunc }
            } else {
                Ok((sib_mode(s, p, Some(ext_reg(s.base, p.rex.b)), 0), offset))
            },
        }
    } else if m.mod_ == 0 && m.rm == 5 {
        if offset + 4 <= b.len() { Ok((AddrMode::RipRelative { disp: disp32_at(b, offset) }, offset + 4)) } else { trunc }
    } else if m.mod_ == 0 {
        Ok((AddrMode::BaseDisp { base: ext_reg(m.rm, p.rex.b), disp: 0 }, offset))
    } else if m.mod_ == 1 {
        if offset >= b.len() {
            trunc
        } else {
            let disp = b[offset] as i8 as i64;
            if m.rm == 4 {
                match sib {
                    None => no_sib,
                    Some(s) => Ok((sib_mode(s, p, Some(ext_reg(s.base, p.rex.b)), disp), offset + 1)),
                }
            } else {
                Ok((AddrMode::BaseDisp { base: ext_reg(m.rm, p.rex.b), disp }, offset + 1))
            }
        }
    } else if m.mod_ == 2 {
        if offset + 4 > b.len() {
            trunc
        } else {
            let disp = disp32_at(b, offset);
            if m.rm == 4 {
                match sib {
                    None => no_sib,
                    Some(s) => Ok((sib_mode(s, p, Some(ext_reg(s.base, p.rex.b)), disp), offset + 4)),
                }
            } else {
                Ok((AddrMode::BaseDisp { base: ext_reg(m.rm, p.rex.b), disp }, offset + 4))
            }
        }
    } else {
        Err(DecodeError::InvalidModRm(offset as usize))
    }
}

/// The SIB a reference points at, if any.
pub open spec fn opt_sib(sib: Option<&Sib>) -> Option<Sib> {
    match sib {
        Some(s) => Some(*s),
        None => None,
    }
}

/// Decode the effective address from ModR/M + optional SIB + displacement.
///
/// Returns an error for register-direct mode (mod=3).
pub fn decode_addr(modrm: &ModRm, sib: Option<&Sib>, rex: &PrefixSet, bytes: &[u8], offset: usize) -> (r: Result<(AddrMode, usize), DecodeError>)
    ensures
        match r {
            Ok((a, n)) => spec_decode_addr(*modrm, opt_sib(sib), *rex, bytes@, offset as int) == Ok::<(AddrMode, int), DecodeError>((a, n as int)),
            Err(e) => spec_decode_addr(*modrm, opt_sib(sib), *rex, bytes@, offset as int) == Err::<(AddrMode, int), DecodeError>(e),
        },
{
    if modrm.mod_ == 3 {
        return Err(DecodeError::InvalidModRm(offset));
    }
    if modrm.mod_ == 0 && modrm.rm == 4 {
        let s = match sib {
            Some(s) => s,
            None => {
                return Err(DecodeError::InvalidSib(offset));
            },
        };
        if s.base == 5 {
            let disp = read_disp32(bytes, offset)?;
            Ok(decode_sib_addr(s, rex, None, disp, offset + 4))
        } else {
            let base = Some(gpr_from_ext(s.base, rex.rex.b));
            Ok(decode_sib_addr(s, rex, base, 0, offset))
        }
    } else if modrm.mod_ == 0 && modrm.rm == 5 {
        let disp = read_disp32(bytes, offset)?;
        Ok((AddrMode::RipRelative { disp }, offset + 4))
    } else if modrm.mod_ == 0 {
        Ok((AddrMode::BaseDisp { base: gpr_from_ext(modrm.rm, rex.rex.b), disp: 0 }, offset))
    } else if modrm.mod_ == 1 {
        let disp = read_disp8(bytes, offset)? as i64;
        if modrm.rm == 4 {
            let s = match sib {
                Some(s) => s,
                None => {
                    return Err(DecodeError::InvalidSib(offset));
                },
            };
            let base = Some(gpr_from_ext(s.base, rex.rex.b));
            Ok(decode_sib_addr(s, rex, base, disp, offset + 1))
        } else {
            Ok((AddrMode::BaseDisp { base: gpr_from_ext(modrm.rm, rex.rex.b), disp }, offset + 1))
        }
    } else if modrm.mod_ == 2 {
        let disp = read_disp32(bytes, offset)?;
        if modrm.rm == 4 {
            let s = match sib {
                Some(s) => s,
                None => {
                    return Err(DecodeError::InvalidSib(offset));
                },
            };
            let base = Some(gpr_from_ext(s.base, rex.rex.b));
            Ok(decode_sib_addr(s, rex, base, disp, offset + 4))
        } else {
            Ok((AddrMode::BaseDisp { base: gpr_from_ext(modrm.rm, rex.rex.b), disp }, offset + 4))
        }
    } else {
        Err(DecodeError::InvalidModRm(offset))
    }
}

} // verus!
