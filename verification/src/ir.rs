// The SSA intermediate representation shared by the decoder and the passes.
use vstd::prelude::*;

verus! {

/// x86-64 general-purpose registers in architectural order.
#[derive(Debug, Clone, Copy, PartialEq, Eq, Hash, Structural)]
pub enum Gpr {
    Rax,
    Rcx,
    Rdx,
    Rbx,
    Rsp,
    Rbp,
    Rsi,
    Rdi,
    R8,
    R9,
    R10,
    R11,
    R12,
    R13,
    R14,
    R15,
}

pub const GPR_COUNT: usize = 16;

/// Operand size.
#[derive(Debug, Clone, Copy, PartialEq, Eq, Hash, Structural)]
pub enum OpSize {
    I8,
    I16,
    I32,
    I64,
}

impl OpSize {
    /// Width of the operand in bits.
    pub open spec fn spec_bit_width(self) -> u32 {
        match self {
            OpSize::I8 => 8,
            OpSize::I16 => 16,
            OpSize::I32 => 32,
            OpSize::I64 => 64,
        }
    }

    /// All-ones value of the operand width.
    pub open spec fn spec_mask(self) -> u64 {
        match self {
            OpSize::I8 => 0xFF,
            OpSize::I16 => 0xFFFF,
            OpSize::I32 => 0xFFFF_FFFF,
            OpSize::I64 => 0xFFFF_FFFF_FFFF_FFFF,
        }
    }

    #[must_use]
    #[verifier::when_used_as_spec(spec_bit_width)]
    pub fn bit_width(self) -> (r: u32)
        ensures
            r == self.spec_bit_width(),
    {
        match self {
            Self::I8 => 8,
            Self::I16 => 16,
            Self::I32 => 32,
            Self::I64 => 64,
        }
    }

    #[must_use]
    #[verifier::when_used_as_spec(spec_mask)]
    pub fn mask(self) -> (r: u64)
        ensures
            r == self.spec_mask(),
    {
        match self {
            Self::I8 => 0xFF,
            Self::I16 => 0xFFFF,
            Self::I32 => 0xFFFF_FFFF,
            Self::I64 => 0xFFFF_FFFF_FFFF_FFFF,
        }
    }
}

/// Binary operation kinds.
#[derive(Debug, Clone, Copy, PartialEq, Eq, Hash, Structural)]
pub enum BinOpKind {
    Add,
    Sub,
    Mul,
    And,
    Or,
    Xor,
    Shl,
    Shr,
    Sar,
    Rol,
    Ror,
    Rcl,
    Rcr,
    UMulHi,
    SMulHi,
    UDiv,
    SDiv,
    UMod,
    SMod,
    Pdep,
    Pext,
}

/// Which half of a full-width division result an IR statement materializes.
#[derive(Debug, Clone, Copy, PartialEq, Eq, Hash, Structural)]
pub enum WideDivResult {
    Quotient,
    Remainder,
}

/// Condition codes for `Compare`, `CondJumpRel`, `Select`, `CondJumpFlags`.
#[derive(Debug, Clone, Copy, PartialEq, Eq, Hash, Structural)]
pub enum CondCode {
    Eq,
    Ne,
    Ult,
    Ule,
    Ugt,
    Uge,
    Slt,
    Sle,
    Sgt,
    Sge,
    Cc,
    Nc,
    Ov,
    NoOv,
    Mi,
    Pl,
}

/// x86 segment registers.
#[derive(Debug, Clone, Copy, PartialEq, Eq, Hash, Structural)]
pub enum SegmentReg {
    Es,
    Cs,
    Ss,
    Ds,
    Fs,
    Gs,
}

/// Flag bits for `ReadFlag`.
#[derive(Debug, Clone, Copy, PartialEq, Eq, Hash, Structural)]
pub enum FlagBit {
    Carry,
    Zero,
    Sign,
    Overflow,
    Parity,
    Aux,
}

/// How `StoreRflagsFromNzcv` derives the x86 CF bit from ARM64 NZCV.
#[derive(Debug, Clone, Copy, PartialEq, Eq, Hash, Structural)]
pub enum RflagsCarryMode {
    /// x86 CF is ARM64 C, used by add-like flag writers.
    ArmCarry,
    /// x86 CF is NOT ARM64 C, used by subtract/compare borrow semantics.
    InvertArmCarry,
    /// x86 CF is cleared, used by logical flag writers.
    Clear,
    /// x86 CF is left unchanged while ZF/SF/OF are refreshed.
    Preserve,
}

/// Memory fence kinds.
#[derive(Debug, Clone, Copy, PartialEq, Eq, Hash, Structural)]
pub enum FenceKind {
    Mfence,
    Lfence,
    Sfence,
}

/// Trap kinds.
#[derive(Debug, Clone, Copy, PartialEq, Eq, Hash, Structural)]
pub enum TrapKind {
    Sigtrap,
    Sigill,
    Sigfpe,
}

/// SIMD lane widths.
#[derive(Debug, Clone, Copy, PartialEq, Eq, Hash, Structural)]
pub enum VecLane {
    B16,
    H8,
    S4,
    D2,
}

/// SIMD integer binary operation kinds.
#[derive(Debug, Clone, Copy, PartialEq, Eq, Hash, Structural)]
pub enum VecBinOpKind {
    Add,
    Sub,
    And,
    Or,
    Xor,
    Mul,
    SqAdd,
    UqAdd,
    SqSub,
    UqSub,
    UMin,
    UMax,
    SMin,
    SMax,
    SMulHi,
    UMulHi,
    UMul32To64,
    SadBw,
    PairAddInt,
    PairSubInt,
}

/// SIMD FP comparison predicates (CMPPS/PD/SS/SD imm8 & 7).
#[derive(Debug, Clone, Copy, PartialEq, Eq, Hash, Structural)]
pub enum VecFpCmpPred {
    Eq,
    Lt,
    Le,
    Unord,
    Neq,
    Nlt,
    Nle,
    Ord,
}

/// SIMD vector shift kinds.
#[derive(Debug, Clone, Copy, PartialEq, Eq, Hash, Structural)]
pub enum VecShiftKind {
    ShiftL,
    LogicalShr,
    ArithShr,
}

/// SIMD FP binary operation kinds.
#[derive(Debug, Clone, Copy, PartialEq, Eq, Hash, Structural)]
pub enum VecFpBinOpKind {
    Add,
    Sub,
    Mul,
    Div,
    Min,
    Max,
    Sqrt,
    HAdd,
}

/// SIMD FP size.
#[derive(Debug, Clone, Copy, PartialEq, Eq, Hash, Structural)]
pub enum VecFpSize {
    S4,
    D2,
}

/// Packed F16C conversion direction.
#[derive(Debug, Clone, Copy, PartialEq, Eq, Hash, Structural)]
pub enum VecF16CvtKind {
    /// Convert four packed half-precision values from src[63:0] to four f32 lanes.
    PhToPs,
    /// Convert four packed f32 lanes to four half-precision values in result[63:0].
    PsToPh,
}

/// Scalar FP size.
#[derive(Debug, Clone, Copy, PartialEq, Eq, Hash, Structural)]
pub enum FpSize {
    F32,
    F64,
}

/// Scalar FP binary operation kinds.
#[derive(Debug, Clone, Copy, PartialEq, Eq, Hash, Structural)]
pub enum FpBinOpKind {
    Add,
    Sub,
    Mul,
    Div,
}

/// AES operation kind.
#[derive(Debug, Clone, Copy, PartialEq, Eq, Hash, Structural)]
pub enum VecAesKind {
    Enc,
    EncLast,
    Dec,
    DecLast,
    Imc,
}

/// SHA operation kind.
#[derive(Debug, Clone, Copy, PartialEq, Eq, Hash, Structural)]
pub enum VecShaKind {
    Sha1Rnds4,
    Sha1Nexte,
    Sha1Msg1,
    Sha1Msg2,
    Sha256Rnds2,
    Sha256Msg1,
    Sha256Msg2,
}

// Ref — SSA value identifier

/// SSA reference: offset into the containing function's statement list.
pub type Ref = u32;

pub const INVALID_REF: Ref = 0xFFFF_FFFF;

// Op variants

#[derive(Debug, Clone, PartialEq)]
pub struct Constant {
    pub value: u64,
    pub size: OpSize,
}
#[derive(Debug, Clone, PartialEq)]
pub struct LoadReg {
    pub reg: Gpr,
    pub size: OpSize,
}
#[derive(Debug, Clone, PartialEq)]
pub struct StoreReg {
    pub reg: Gpr,
    pub value: Ref,
    pub size: OpSize,
}
#[derive(Debug, Clone, PartialEq)]
pub struct LoadSegBase {
    pub seg: SegmentReg,
}
#[derive(Debug, Clone, PartialEq)]
pub struct BinOp {
    pub op: BinOpKind,
    pub lhs: Ref,
    pub rhs: Ref,
    pub size: OpSize,
}
#[derive(Debug, Clone, PartialEq)]
pub struct WideDiv {
    /// High half of the dividend (`RDX` for x86-64 `DIV/IDIV r/m64`).
    pub high: Ref,
    /// Low half of the dividend (`RAX` for x86-64 `DIV/IDIV r/m64`).
    pub low: Ref,
    pub divisor: Ref,
    pub signed: bool,
    pub result: WideDivResult,
}
#[derive(Debug, Clone, PartialEq)]
pub struct Compare {
    pub cc: CondCode,
    pub lhs: Ref,
    pub rhs: Ref,
    pub size: OpSize,
}
#[derive(Debug, Clone, PartialEq)]
pub struct Select {
    pub cc: CondCode,
    pub true_value: Ref,
    pub false_value: Ref,
    pub size: OpSize,
}
#[derive(Debug, Clone, PartialEq)]
pub struct LoadMem {
    pub addr: Ref,
    pub size: OpSize,
}
#[derive(Debug, Clone, PartialEq)]
pub struct StoreMem {
    pub addr: Ref,
    pub value: Ref,
    pub size: OpSize,
}
#[derive(Debug, Clone, PartialEq)]
pub struct LoadMemTSO {
    pub addr: Ref,
    pub size: OpSize,
}
#[derive(Debug, Clone, PartialEq)]
pub struct StoreMemTSO {
    pub addr: Ref,
    pub value: Ref,
    pub size: OpSize,
}
#[derive(Debug, Clone, PartialEq)]
pub struct AtomicCmpxchg {
    pub addr: Ref,
    pub expected: Ref,
    pub new_value: Ref,
    pub size: OpSize,
}
#[derive(Debug, Clone, PartialEq)]
pub struct AtomicXchg {
    pub addr: Ref,
    pub value: Ref,
    pub size: OpSize,
}
#[derive(Debug, Clone, PartialEq)]
pub struct AtomicXadd {
    pub addr: Ref,
    pub value: Ref,
    pub size: OpSize,
}
#[derive(Debug, Clone, PartialEq)]
pub struct AtomicCmpxchgPair {
    pub addr: Ref,
    pub expected_low: Ref,
    pub expected_high: Ref,
    pub new_low: Ref,
    pub new_high: Ref,
    pub old_high: Ref,
}
#[derive(Debug, Clone, PartialEq)]
pub struct Jump {
    pub target_block: u32,
}
#[derive(Debug, Clone, PartialEq)]
pub struct CondJump {
    pub cond: Ref,
    pub if_true: u32,
    pub if_false: u32,
}
#[derive(Debug, Clone, PartialEq)]
pub struct Return;
#[derive(Debug, Clone, PartialEq)]
pub struct CmpFlags {
    pub lhs: Ref,
    pub rhs: Ref,
    pub size: OpSize,
}
#[derive(Debug, Clone, PartialEq)]
pub struct AluFlags {
    pub op: BinOpKind,
    pub lhs: Ref,
    pub rhs: Ref,
    pub size: OpSize,
}
#[derive(Debug, Clone, PartialEq)]
pub struct AluFlagsPreserveCarry {
    pub op: BinOpKind,
    pub lhs: Ref,
    pub rhs: Ref,
    pub size: OpSize,
}
#[derive(Debug, Clone, PartialEq)]
pub struct JumpReg {
    pub target: Ref,
}
#[derive(Debug, Clone, PartialEq)]
pub struct JumpRel {
    pub target_guest_pc: u64,
}
#[derive(Debug, Clone, PartialEq)]
pub struct CondJumpRel {
    pub cc: CondCode,
    pub target_guest_pc: u64,
    pub fallthrough_guest_pc: u64,
}
#[derive(Debug, Clone, PartialEq)]
pub struct CallRel {
    pub target_guest_pc: u64,
    pub return_guest_pc: u64,
}
#[derive(Debug, Clone, PartialEq)]
pub struct CallReg {
    pub target: Ref,
    pub return_guest_pc: u64,
}
#[derive(Debug, Clone, PartialEq)]
pub struct RetAdjusted {
    pub pop_bytes: u64,
}
#[derive(Debug, Clone, PartialEq)]
pub struct Cpuid;
#[derive(Debug, Clone, PartialEq)]
pub struct Xgetbv;
#[derive(Debug, Clone, PartialEq)]
pub struct Rdtsc;
#[derive(Debug, Clone, PartialEq)]
pub struct Syscall;
#[derive(Debug, Clone, PartialEq)]
pub struct Extend {
    pub value: Ref,
    pub from_size: OpSize,
    pub to_size: OpSize,
    pub is_signed: bool,
}
#[derive(Debug, Clone, PartialEq)]
pub struct Truncate {
    pub value: Ref,
    pub to_size: OpSize,
}
#[derive(Debug, Clone, PartialEq)]
pub struct Fence {
    pub kind: FenceKind,
}
#[derive(Debug, Clone, PartialEq)]
pub struct GuestPc {
    pub pc: u64,
}
#[derive(Debug, Clone, PartialEq)]
pub struct WriteFlags {
    pub op: BinOpKind,
    pub lhs: Ref,
    pub rhs: Ref,
    pub size: OpSize,
}
#[derive(Debug, Clone, PartialEq)]
pub struct ReadFlag {
    pub flags: Ref,
    pub which: FlagBit,
}
#[derive(Debug, Clone, PartialEq)]
pub struct CondJumpFlags {
    pub flags: Ref,
    pub cc: CondCode,
    pub if_true: u32,
    pub if_false: u32,
}
#[derive(Debug, Clone, PartialEq)]
pub struct RspAdjust {
    pub delta_bytes: i64,
}
#[derive(Debug, Clone, PartialEq)]
pub struct VecConstant {
    pub lo: u64,
    pub hi: u64,
}
#[derive(Debug, Clone, PartialEq)]
pub struct VecBinOp {
    pub op: VecBinOpKind,
    pub lhs: Ref,
    pub rhs: Ref,
    pub lane: VecLane,
}
#[derive(Debug, Clone, PartialEq)]
pub struct VecClMul {
    pub lhs: Ref,
    pub rhs: Ref,
    pub lhs_high: bool,
    pub rhs_high: bool,
}
#[derive(Debug, Clone, PartialEq)]
pub struct VecF16Cvt {
    pub kind: VecF16CvtKind,
    pub src: Ref,
    /// VCVTPS2PH rounding immediate. Ignored for VCVTPH2PS.
    pub rounding: u8,
}
#[derive(Debug, Clone, PartialEq)]
pub struct LoadVecReg {
    pub xmm_index: u8,
}
#[derive(Debug, Clone, PartialEq)]
pub struct StoreVecReg {
    pub xmm_index: u8,
    pub value: Ref,
}
#[derive(Debug, Clone, PartialEq)]
pub struct LoadVec {
    pub addr: Ref,
}
#[derive(Debug, Clone, PartialEq)]
pub struct StoreVec {
    pub addr: Ref,
    pub value: Ref,
}
#[derive(Debug, Clone, PartialEq)]
pub struct VecFpBinOp {
    pub op: VecFpBinOpKind,
    pub lhs: Ref,
    pub rhs: Ref,
    pub size: VecFpSize,
}
#[derive(Debug, Clone, PartialEq)]
pub struct VecFpScalarBinOp {
    pub op: VecFpBinOpKind,
    pub lhs: Ref,
    pub rhs: Ref,
    pub size: FpSize,
}
#[derive(Debug, Clone, PartialEq)]
pub struct XmmFromGpr {
    pub value: Ref,
    pub size: OpSize,
}
#[derive(Debug, Clone, PartialEq)]
pub struct GprFromXmm {
    pub value: Ref,
    pub size: OpSize,
}
#[derive(Debug, Clone, PartialEq)]
pub struct VecCmp {
    pub kind: VecCmpKind,
    pub lhs: Ref,
    pub rhs: Ref,
    pub lane: VecLane,
}
#[derive(Debug, Clone, PartialEq)]
pub struct PcmpStrIndex {
    pub lhs: Ref,
    pub rhs: Ref,
    pub lhs_len: Option<Ref>,
    pub rhs_len: Option<Ref>,
    pub imm8: u8,
}
#[derive(Debug, Clone, PartialEq)]
pub struct PcmpStrMask {
    pub lhs: Ref,
    pub rhs: Ref,
    pub lhs_len: Option<Ref>,
    pub rhs_len: Option<Ref>,
    pub imm8: u8,
}
#[derive(Debug, Clone, PartialEq)]
pub struct PcmpStrFlags {
    pub lhs: Ref,
    pub rhs: Ref,
    pub lhs_len: Option<Ref>,
    pub rhs_len: Option<Ref>,
    pub imm8: u8,
}
#[derive(Debug, Clone, PartialEq)]
pub struct VecShuffle32x4 {
    pub src: Ref,
    pub control: u8,
}
#[derive(Debug, Clone, PartialEq)]
pub struct VecUnpack {
    pub is_high: bool,
    pub lhs: Ref,
    pub rhs: Ref,
    pub lane: VecLane,
}
#[derive(Debug, Clone, PartialEq)]
pub struct VecShiftImm {
    pub kind: VecShiftKind,
    pub src: Ref,
    pub count: u8,
    pub lane: VecLane,
}
#[derive(Debug, Clone, PartialEq)]
pub struct VecShiftBytes {
    pub is_left: bool,
    pub src: Ref,
    pub count: u8,
}
#[derive(Debug, Clone, PartialEq)]
pub struct IntToFpScalar {
    pub value: Ref,
    pub int_size: OpSize,
    pub fp_size: FpSize,
}
#[derive(Debug, Clone, PartialEq)]
pub struct FpToIntScalar {
    pub value: Ref,
    pub fp_size: FpSize,
    pub int_size: OpSize,
}
#[derive(Debug, Clone, PartialEq)]
pub struct FpCvtScalar {
    pub lhs: Ref,
    pub src: Ref,
    pub src_size: FpSize,
    pub dst_size: FpSize,
}
#[derive(Debug, Clone, PartialEq)]
pub struct VecShuffle2Src {
    pub is_pd: bool,
    pub lhs: Ref,
    pub rhs: Ref,
    pub control: u8,
}
#[derive(Debug, Clone, PartialEq)]
pub struct VecInsertLane {
    pub lhs_xmm: Ref,
    pub value: Ref,
    pub lane_idx: u8,
    pub lane: VecLane,
}
#[derive(Debug, Clone, PartialEq)]
pub struct VecExtractLaneU {
    pub src_xmm: Ref,
    pub lane_idx: u8,
    pub lane: VecLane,
}
#[derive(Debug, Clone, PartialEq)]
pub struct VecMaskMsb {
    pub src_xmm: Ref,
}
#[derive(Debug, Clone, PartialEq)]
pub struct WriteFlagsFp {
    pub lhs: Ref,
    pub rhs: Ref,
    pub size: FpSize,
}
#[derive(Debug, Clone, PartialEq)]
pub struct VecShuffleH4 {
    pub is_high: bool,
    pub src: Ref,
    pub control: u8,
}
#[derive(Debug, Clone, PartialEq)]
pub struct VecMaskFp {
    pub src_xmm: Ref,
    pub is_pd: bool,
}
#[derive(Debug, Clone, PartialEq)]
pub struct VecFpCompare {
    pub lhs: Ref,
    pub rhs: Ref,
    pub size: FpSize,
    pub pred: VecFpCmpPred,
    pub is_packed: bool,
}
#[derive(Debug, Clone, PartialEq)]
pub struct VecPshufb {
    pub src: Ref,
    pub mask: Ref,
}
#[derive(Debug, Clone, PartialEq)]
pub struct VecAbs {
    pub src: Ref,
    pub lane: VecLane,
}
#[derive(Debug, Clone, PartialEq)]
pub struct VecAlignr {
    pub lhs: Ref,
    pub rhs: Ref,
    pub count: u8,
}
#[derive(Debug, Clone, PartialEq)]
pub struct VecExtend {
    pub src: Ref,
    pub narrow_lane: VecLane,
    pub wide_lane: VecLane,
    pub is_signed: bool,
}
#[derive(Debug, Clone, PartialEq)]
pub struct VecFpRound {
    pub lhs: Ref,
    pub src: Ref,
    pub size: FpSize,
    pub mode: u8,
    pub is_packed: bool,
}
#[derive(Debug, Clone, PartialEq)]
pub struct Popcnt {
    pub value: Ref,
    pub size: OpSize,
}
#[derive(Debug, Clone, PartialEq)]
pub struct Lzcnt {
    pub value: Ref,
    pub size: OpSize,
}
#[derive(Debug, Clone, PartialEq)]
pub struct Tzcnt {
    pub value: Ref,
    pub size: OpSize,
}
#[derive(Debug, Clone, PartialEq)]
pub struct WriteFlagsPopcnt {
    pub src: Ref,
    pub size: OpSize,
}
#[derive(Debug, Clone, PartialEq)]
pub struct WriteFlagsCountZero {
    pub src: Ref,
    pub result: Ref,
    pub size: OpSize,
}
/// Loads the persistent x86 carry flag (0 or 1) into `result`.
///
/// The host NZCV carry is transient and SSA-scoped; multi-precision ADC/SBB
/// need CF to survive between instructions, so it lives in a dedicated
/// `CpuStateFrame` slot.
#[derive(Debug, Clone, PartialEq)]
pub struct LoadCarry;
/// Materialises the carry-out of a preceding flag-setting op into `result` (0/1).
///
/// `from_sub` inverts: ARM64 sets C = NOT(borrow) on subtraction, so x86 CF
/// (borrow) is `cset cc` after a sub and `cset cs` after an add.
#[derive(Debug, Clone, PartialEq)]
pub struct ReadCarryOut {
    pub flags: Ref,
    pub from_sub: bool,
}
/// Stores `value` (must be 0 or 1) into the persistent CF slot.
#[derive(Debug, Clone, PartialEq)]
pub struct StoreCarry {
    pub value: Ref,
}
/// Loads the persistent x86 RFLAGS subset into `result`.
#[derive(Debug, Clone, PartialEq)]
pub struct LoadRflags;
/// Stores the persistent x86 RFLAGS subset from `value`.
#[derive(Debug, Clone, PartialEq)]
pub struct StoreRflags {
    pub value: Ref,
}
/// Publishes the transient ARM64 NZCV flags into the persistent x86 RFLAGS
/// subset. ZF/SF/OF always come from NZCV; CF follows `carry`.
#[derive(Debug, Clone, PartialEq)]
pub struct StoreRflagsFromNzcv {
    pub carry: RflagsCarryMode,
    pub pf: Option<Ref>,
    pub af: Option<Ref>,
}
/// Publishes explicit 0/1 refs into the persistent x86 RFLAGS subset while
/// preserving CF. PF/AF are optional so producers can avoid inventing undefined
/// or not-yet-modelled bits.
#[derive(Debug, Clone, PartialEq)]
pub struct StoreRflagsFromBits {
    pub pf: Option<Ref>,
    pub af: Option<Ref>,
    pub zf: Ref,
    pub sf: Ref,
    pub of: Ref,
}
#[derive(Debug, Clone, PartialEq)]
pub struct VecBlend {
    pub dst: Ref,
    pub src: Ref,
    pub mask: Ref,
    pub lane: VecLane,
}
#[derive(Debug, Clone, PartialEq)]
pub struct WriteFlagsPtest {
    pub lhs: Ref,
    pub rhs: Ref,
}
#[derive(Debug, Clone, PartialEq)]
pub struct WriteFlagsPtestYmm {
    pub lo_lhs: Ref,
    pub lo_rhs: Ref,
    pub hi_lhs: Ref,
    pub hi_rhs: Ref,
}
#[derive(Debug, Clone, PartialEq)]
pub struct VecTbl2 {
    pub src_lo: Ref,
    pub src_hi: Ref,
    pub idx: Ref,
}
#[derive(Debug, Clone, PartialEq)]
pub struct VecAes {
    pub src: Ref,
    pub key: Ref,
    pub kind: VecAesKind,
}
#[derive(Debug, Clone, PartialEq)]
pub struct VecAesKeygenAssist {
    pub src: Ref,
    pub rcon: u8,
}
#[derive(Debug, Clone, PartialEq)]
pub struct VecSha {
    pub kind: VecShaKind,
    pub a: Ref,
    pub b: Ref,
    pub wk: Ref,
    pub imm: u8,
}
#[derive(Debug, Clone, PartialEq)]
pub struct Bswap {
    pub value: Ref,
    pub size: OpSize,
}
#[derive(Debug, Clone, PartialEq)]
pub struct Crc32c {
    pub crc: Ref,
    pub data: Ref,
    pub data_size: OpSize,
}
#[derive(Debug, Clone, PartialEq)]
pub struct VecGather {
    pub base: Ref,
    pub index: Ref,
    pub mask: Ref,
    pub prev: Ref,
    pub scale_shift: u8,
    pub elem_is64: u8,
    pub index_is64: u8,
    pub lane_count: u8,
    pub dest_lane_base: u8,
    pub index_lane_base: u8,
}
#[derive(Debug, Clone, PartialEq)]
pub struct LoadVecRegHi {
    pub ymm_index: u8,
}
#[derive(Debug, Clone, PartialEq)]
pub struct StoreVecRegHi {
    pub ymm_index: u8,
    pub value: Ref,
}
#[derive(Debug, Clone, PartialEq)]
pub struct VecFpFma {
    pub a: Ref,
    pub b: Ref,
    pub c: Ref,
    pub neg_addend: bool,
    pub neg_mul: bool,
    pub size: VecFpSize,
}
#[derive(Debug, Clone, PartialEq)]
pub struct VecFpScalarFma {
    pub a: Ref,
    pub b: Ref,
    pub c: Ref,
    pub scalar_upper: Ref,
    pub neg_addend: bool,
    pub neg_mul: bool,
    pub size: FpSize,
}
#[derive(Debug, Clone, PartialEq)]
pub struct RepStos {
    pub size: OpSize,
    pub reverse: bool,
    pub pc_of_rep: u64,
    pub pc_after_rep: u64,
}
#[derive(Debug, Clone, PartialEq)]
pub struct RepMovs {
    pub size: OpSize,
    pub reverse: bool,
    pub pc_of_rep: u64,
    pub pc_after_rep: u64,
}
#[derive(Debug, Clone, PartialEq)]
pub struct X87Load {
    pub st_index: u8,
}
#[derive(Debug, Clone, PartialEq)]
pub struct X87Store {
    pub st_index: u8,
    pub value: Ref,
}
#[derive(Debug, Clone, PartialEq)]
pub struct X87Push {
    pub value: Ref,
}
#[derive(Debug, Clone, PartialEq)]
pub struct X87Pop;
#[derive(Debug, Clone, PartialEq)]
pub struct InlineAsm {
    pub bytes: Vec<u8>,
}
#[derive(Debug, Clone, PartialEq)]
pub struct Trap {
    pub kind: TrapKind,
}
#[derive(Debug, Clone, PartialEq)]
pub struct TrapIf {
    pub condition: Ref,
    pub kind: TrapKind,
}

#[derive(Debug, Clone, PartialEq)]
pub struct FpConstant {
    pub bits: u64,
    pub size: FpSize,
}
#[derive(Debug, Clone, PartialEq)]
pub struct FpBinOp {
    pub op: FpBinOpKind,
    pub lhs: Ref,
    pub rhs: Ref,
    pub size: FpSize,
}

/// Comparison kinds for `VecCmp`.
#[derive(Debug, Clone, Copy, PartialEq, Eq, Hash, Structural)]
pub enum VecCmpKind {
    Eq,
    Gt,
}

// Op — the core IR opcode enum

#[derive(Debug, Clone, PartialEq)]
pub enum Op {
    Constant(Constant),
    LoadReg(LoadReg),
    StoreReg(StoreReg),
    LoadSegBase(LoadSegBase),
    BinOp(BinOp),
    WideDiv(WideDiv),
    Compare(Compare),
    Select(Select),
    LoadMem(LoadMem),
    StoreMem(StoreMem),
    LoadMemTSO(LoadMemTSO),
    StoreMemTSO(StoreMemTSO),
    AtomicCmpxchg(AtomicCmpxchg),
    AtomicXchg(AtomicXchg),
    AtomicXadd(AtomicXadd),
    AtomicCmpxchgPair(AtomicCmpxchgPair),
    Jump(Jump),
    CondJump(CondJump),
    Return(Return),
    CmpFlags(CmpFlags),
    AluFlags(AluFlags),
    AluFlagsPreserveCarry(AluFlagsPreserveCarry),
    JumpReg(JumpReg),
    JumpRel(JumpRel),
    CondJumpRel(CondJumpRel),
    CallRel(CallRel),
    CallReg(CallReg),
    RetAdjusted(RetAdjusted),
    Cpuid(Cpuid),
    Xgetbv(Xgetbv),
    Rdtsc(Rdtsc),
    Syscall(Syscall),
    Trap(Trap),
    TrapIf(TrapIf),
    Extend(Extend),
    Truncate(Truncate),
    Fence(Fence),
    GuestPc(GuestPc),
    InlineAsm(InlineAsm),
    FpConstant(FpConstant),
    FpBinOp(FpBinOp),
    WriteFlags(WriteFlags),
    ReadFlag(ReadFlag),
    CondJumpFlags(CondJumpFlags),
    RspAdjust(RspAdjust),
    VecConstant(VecConstant),
    VecBinOp(VecBinOp),
    VecClMul(VecClMul),
    VecF16Cvt(VecF16Cvt),
    LoadVecReg(LoadVecReg),
    StoreVecReg(StoreVecReg),
    LoadVec(LoadVec),
    StoreVec(StoreVec),
    VecFpBinOp(VecFpBinOp),
    VecFpScalarBinOp(VecFpScalarBinOp),
    XmmFromGpr(XmmFromGpr),
    GprFromXmm(GprFromXmm),
    VecCmp(VecCmp),
    PcmpStrIndex(PcmpStrIndex),
    PcmpStrMask(PcmpStrMask),
    PcmpStrFlags(PcmpStrFlags),
    VecShuffle32x4(VecShuffle32x4),
    VecUnpack(VecUnpack),
    VecShiftImm(VecShiftImm),
    VecShiftBytes(VecShiftBytes),
    IntToFpScalar(IntToFpScalar),
    FpToIntScalar(FpToIntScalar),
    FpCvtScalar(FpCvtScalar),
    VecShuffle2Src(VecShuffle2Src),
    VecInsertLane(VecInsertLane),
    VecExtractLaneU(VecExtractLaneU),
    VecMaskMsb(VecMaskMsb),
    WriteFlagsFp(WriteFlagsFp),
    VecShuffleH4(VecShuffleH4),
    VecMaskFp(VecMaskFp),
    VecFpCompare(VecFpCompare),
    VecPshufb(VecPshufb),
    VecAbs(VecAbs),
    VecAlignr(VecAlignr),
    VecExtend(VecExtend),
    VecFpRound(VecFpRound),
    Popcnt(Popcnt),
    Lzcnt(Lzcnt),
    Tzcnt(Tzcnt),
    WriteFlagsPopcnt(WriteFlagsPopcnt),
    WriteFlagsCountZero(WriteFlagsCountZero),
    VecBlend(VecBlend),
    WriteFlagsPtest(WriteFlagsPtest),
    WriteFlagsPtestYmm(WriteFlagsPtestYmm),
    VecTbl2(VecTbl2),
    VecAes(VecAes),
    VecAesKeygenAssist(VecAesKeygenAssist),
    VecSha(VecSha),
    Bswap(Bswap),
    Crc32c(Crc32c),
    VecGather(VecGather),
    LoadVecRegHi(LoadVecRegHi),
    StoreVecRegHi(StoreVecRegHi),
    VecFpFma(VecFpFma),
    VecFpScalarFma(VecFpScalarFma),
    RepStos(RepStos),
    RepMovs(RepMovs),
    X87Load(X87Load),
    X87Store(X87Store),
    X87Push(X87Push),
    X87Pop(X87Pop),
    LoadCarry(LoadCarry),
    ReadCarryOut(ReadCarryOut),
    StoreCarry(StoreCarry),
    LoadRflags(LoadRflags),
    StoreRflags(StoreRflags),
    StoreRflagsFromNzcv(StoreRflagsFromNzcv),
    StoreRflagsFromBits(StoreRflagsFromBits),
}

// Stmt, BasicBlock, Function

/// A single IR statement. `result` is `None` for side-effect-only ops
/// (`StoreReg`, `StoreMem`, `Jump`, `Return`, etc.).
#[derive(Debug, Clone, PartialEq)]
pub struct Stmt {
    pub result: Option<Ref>,
    pub op: Op,
}

/// The refs held by an optional operand, as a sequence of zero or one refs.
pub open spec fn opt_ref_seq(r: Option<Ref>) -> Seq<Ref> {
    match r {
        Some(v) => seq![v],
        None => Seq::<Ref>::empty(),
    }
}

/// An optional ref with its value cleared, keeping whether it is present.
pub open spec fn opt_ref_skeleton(r: Option<Ref>) -> Option<Ref> {
    match r {
        Some(_) => Some(0u32),
        None => None,
    }
}

/// Whether an optional ref holds `r`.
pub open spec fn opt_ref_is(o: Option<Ref>, r: Ref) -> bool {
    o == Some(r)
}

/// Whether `r` is one of the refs an op reads as operands (every stored ref
/// except the secondary result `old_high` of the paired compare-exchange).
pub open spec fn op_reads(op: Op, r: Ref) -> bool {
    match op {
        Op::StoreReg(x) => r == x.value,
        Op::BinOp(x) => r == x.lhs || r == x.rhs,
        Op::WideDiv(x) => r == x.high || r == x.low || r == x.divisor,
        Op::Compare(x) => r == x.lhs || r == x.rhs,
        Op::Select(x) => r == x.true_value || r == x.false_value,
        Op::LoadMem(x) => r == x.addr,
        Op::StoreMem(x) => r == x.addr || r == x.value,
        Op::LoadMemTSO(x) => r == x.addr,
        Op::StoreMemTSO(x) => r == x.addr || r == x.value,
        Op::AtomicCmpxchg(x) => r == x.addr || r == x.expected || r == x.new_value,
        Op::AtomicXchg(x) => r == x.addr || r == x.value,
        Op::AtomicXadd(x) => r == x.addr || r == x.value,
        Op::AtomicCmpxchgPair(x) => r == x.addr || r == x.expected_low || r == x.expected_high || r == x.new_low || r == x.new_high,
        Op::CondJump(x) => r == x.cond,
        Op::CmpFlags(x) => r == x.lhs || r == x.rhs,
        Op::AluFlags(x) => r == x.lhs || r == x.rhs,
        Op::AluFlagsPreserveCarry(x) => r == x.lhs || r == x.rhs,
        Op::JumpReg(x) => r == x.target,
        Op::CallReg(x) => r == x.target,
        Op::TrapIf(x) => r == x.condition,
        Op::Extend(x) => r == x.value,
        Op::Truncate(x) => r == x.value,
        Op::FpBinOp(x) => r == x.lhs || r == x.rhs,
        Op::WriteFlags(x) => r == x.lhs || r == x.rhs,
        Op::ReadFlag(x) => r == x.flags,
        Op::CondJumpFlags(x) => r == x.flags,
        Op::VecBinOp(x) => r == x.lhs || r == x.rhs,
        Op::VecClMul(x) => r == x.lhs || r == x.rhs,
        Op::VecF16Cvt(x) => r == x.src,
        Op::StoreVecReg(x) => r == x.value,
        Op::LoadVec(x) => r == x.addr,
        Op::StoreVec(x) => r == x.addr || r == x.value,
        Op::VecFpBinOp(x) => r == x.lhs || r == x.rhs,
        Op::VecFpScalarBinOp(x) => r == x.lhs || r == x.rhs,
        Op::XmmFromGpr(x) => r == x.value,
        Op::GprFromXmm(x) => r == x.value,
        Op::VecCmp(x) => r == x.lhs || r == x.rhs,
        Op::PcmpStrIndex(x) => r == x.lhs || r == x.rhs || opt_ref_is(x.lhs_len, r) || opt_ref_is(x.rhs_len, r),
        Op::PcmpStrMask(x) => r == x.lhs || r == x.rhs || opt_ref_is(x.lhs_len, r) || opt_ref_is(x.rhs_len, r),
        Op::PcmpStrFlags(x) => r == x.lhs || r == x.rhs || opt_ref_is(x.lhs_len, r) || opt_ref_is(x.rhs_len, r),
        Op::VecShuffle32x4(x) => r == x.src,
        Op::VecUnpack(x) => r == x.lhs || r == x.rhs,
        Op::VecShiftImm(x) => r == x.src,
        Op::VecShiftBytes(x) => r == x.src,
        Op::IntToFpScalar(x) => r == x.value,
        Op::FpToIntScalar(x) => r == x.value,
        Op::FpCvtScalar(x) => r == x.lhs || r == x.src,
        Op::VecShuffle2Src(x) => r == x.lhs || r == x.rhs,
        Op::VecInsertLane(x) => r == x.lhs_xmm || r == x.value,
        Op::VecExtractLaneU(x) => r == x.src_xmm,
        Op::VecMaskMsb(x) => r == x.src_xmm,
        Op::WriteFlagsFp(x) => r == x.lhs || r == x.rhs,
        Op::VecShuffleH4(x) => r == x.src,
        Op::VecMaskFp(x) => r == x.src_xmm,
        Op::VecFpCompare(x) => r == x.lhs || r == x.rhs,
        Op::VecPshufb(x) => r == x.src || r == x.mask,
        Op::VecAbs(x) => r == x.src,
        Op::VecAlignr(x) => r == x.lhs || r == x.rhs,
        Op::VecExtend(x) => r == x.src,
        Op::VecFpRound(x) => r == x.lhs || r == x.src,
        Op::Popcnt(x) => r == x.value,
        Op::Lzcnt(x) => r == x.value,
        Op::Tzcnt(x) => r == x.value,
        Op::WriteFlagsPopcnt(x) => r == x.src,
        Op::WriteFlagsCountZero(x) => r == x.src || r == x.result,
        Op::VecBlend(x) => r == x.dst || r == x.src || r == x.mask,
        Op::WriteFlagsPtest(x) => r == x.lhs || r == x.rhs,
        Op::WriteFlagsPtestYmm(x) => r == x.lo_lhs || r == x.lo_rhs || r == x.hi_lhs || r == x.hi_rhs,
        Op::VecTbl2(x) => r == x.src_lo || r == x.src_hi || r == x.idx,
        Op::VecAes(x) => r == x.src || r == x.key,
        Op::VecAesKeygenAssist(x) => r == x.src,
        Op::VecSha(x) => r == x.a || r == x.b || r == x.wk,
        Op::Bswap(x) => r == x.value,
        Op::Crc32c(x) => r == x.crc || r == x.data,
        Op::VecGather(x) => r == x.base || r == x.index || r == x.mask || r == x.prev,
        Op::StoreVecRegHi(x) => r == x.value,
        Op::VecFpFma(x) => r == x.a || r == x.b || r == x.c,
        Op::VecFpScalarFma(x) => r == x.a || r == x.b || r == x.c || r == x.scalar_upper,
        Op::X87Store(x) => r == x.value,
        Op::X87Push(x) => r == x.value,
        Op::ReadCarryOut(x) => r == x.flags,
        Op::StoreCarry(x) => r == x.value,
        Op::StoreRflags(x) => r == x.value,
        Op::StoreRflagsFromNzcv(x) => opt_ref_is(x.pf, r) || opt_ref_is(x.af, r),
        Op::StoreRflagsFromBits(x) => opt_ref_is(x.pf, r) || opt_ref_is(x.af, r) || r == x.zf || r == x.sf || r == x.of,
        _ => false,
    }
}

/// Whether two optional refs are both absent, or both present with values
/// related by `rel`.
pub open spec fn opt_ref_related(a: Option<Ref>, b: Option<Ref>, rel: spec_fn(Ref, Ref) -> bool) -> bool {
    match (a, b) {
        (Some(x), Some(y)) => rel(x, y),
        (None, None) => true,
        _ => false,
    }
}

/// Whether every stored ref of `b` is related by `rel` to the ref in the same
/// field of `a` (both ops being of the same variant).
pub open spec fn op_refs_related(a: Op, b: Op, rel: spec_fn(Ref, Ref) -> bool) -> bool {
    match (a, b) {
        (Op::StoreReg(x), Op::StoreReg(y)) => rel(x.value, y.value),
        (Op::BinOp(x), Op::BinOp(y)) => rel(x.lhs, y.lhs) && rel(x.rhs, y.rhs),
        (Op::WideDiv(x), Op::WideDiv(y)) => rel(x.high, y.high) && rel(x.low, y.low) && rel(x.divisor, y.divisor),
        (Op::Compare(x), Op::Compare(y)) => rel(x.lhs, y.lhs) && rel(x.rhs, y.rhs),
        (Op::Select(x), Op::Select(y)) => rel(x.true_value, y.true_value) && rel(x.false_value, y.false_value),
        (Op::LoadMem(x), Op::LoadMem(y)) => rel(x.addr, y.addr),
        (Op::StoreMem(x), Op::StoreMem(y)) => rel(x.addr, y.addr) && rel(x.value, y.value),
        (Op::LoadMemTSO(x), Op::LoadMemTSO(y)) => rel(x.addr, y.addr),
        (Op::StoreMemTSO(x), Op::StoreMemTSO(y)) => rel(x.addr, y.addr) && rel(x.value, y.value),
        (Op::AtomicCmpxchg(x), Op::AtomicCmpxchg(y)) => rel(x.addr, y.addr) && rel(x.expected, y.expected) && rel(x.new_value, y.new_value),
        (Op::AtomicXchg(x), Op::AtomicXchg(y)) => rel(x.addr, y.addr) && rel(x.value, y.value),
        (Op::AtomicXadd(x), Op::AtomicXadd(y)) => rel(x.addr, y.addr) && rel(x.value, y.value),
        (Op::AtomicCmpxchgPair(x), Op::AtomicCmpxchgPair(y)) => rel(x.addr, y.addr) && rel(x.expected_low, y.expected_low) && rel(x.expected_high, y.expected_high) && rel(x.new_low, y.new_low) && rel(x.new_high, y.new_high) && rel(x.old_high, y.old_high),
        (Op::CondJump(x), Op::CondJump(y)) => rel(x.cond, y.cond),
        (Op::CmpFlags(x), Op::CmpFlags(y)) => rel(x.lhs, y.lhs) && rel(x.rhs, y.rhs),
        (Op::AluFlags(x), Op::AluFlags(y)) => rel(x.lhs, y.lhs) && rel(x.rhs, y.rhs),
        (Op::AluFlagsPreserveCarry(x), Op::AluFlagsPreserveCarry(y)) => rel(x.lhs, y.lhs) && rel(x.rhs, y.rhs),
        (Op::JumpReg(x), Op::JumpReg(y)) => rel(x.target, y.target),
        (Op::CallReg(x), Op::CallReg(y)) => rel(x.target, y.target),
        (Op::TrapIf(x), Op::TrapIf(y)) => rel(x.condition, y.condition),
        (Op::Extend(x), Op::Extend(y)) => rel(x.value, y.value),
        (Op::Truncate(x), Op::Truncate(y)) => rel(x.value, y.value),
        (Op::FpBinOp(x), Op::FpBinOp(y)) => rel(x.lhs, y.lhs) && rel(x.rhs, y.rhs),
        (Op::WriteFlags(x), Op::WriteFlags(y)) => rel(x.lhs, y.lhs) && rel(x.rhs, y.rhs),
        (Op::ReadFlag(x), Op::ReadFlag(y)) => rel(x.flags, y.flags),
        (Op::CondJumpFlags(x), Op::CondJumpFlags(y)) => rel(x.flags, y.flags),
        (Op::VecBinOp(x), Op::VecBinOp(y)) => rel(x.lhs, y.lhs) && rel(x.rhs, y.rhs),
        (Op::VecClMul(x), Op::VecClMul(y)) => rel(x.lhs, y.lhs) && rel(x.rhs, y.rhs),
        (Op::VecF16Cvt(x), Op::VecF16Cvt(y)) => rel(x.src, y.src),
        (Op::StoreVecReg(x), Op::StoreVecReg(y)) => rel(x.value, y.value),
        (Op::LoadVec(x), Op::LoadVec(y)) => rel(x.addr, y.addr),
        (Op::StoreVec(x), Op::StoreVec(y)) => rel(x.addr, y.addr) && rel(x.value, y.value),
        (Op::VecFpBinOp(x), Op::VecFpBinOp(y)) => rel(x.lhs, y.lhs) && rel(x.rhs, y.rhs),
        (Op::VecFpScalarBinOp(x), Op::VecFpScalarBinOp(y)) => rel(x.lhs, y.lhs) && rel(x.rhs, y.rhs),
        (Op::XmmFromGpr(x), Op::XmmFromGpr(y)) => rel(x.value, y.value),
        (Op::GprFromXmm(x), Op::GprFromXmm(y)) => rel(x.value, y.value),
        (Op::VecCmp(x), Op::VecCmp(y)) => rel(x.lhs, y.lhs) && rel(x.rhs, y.rhs),
        (Op::PcmpStrIndex(x), Op::PcmpStrIndex(y)) => rel(x.lhs, y.lhs) && rel(x.rhs, y.rhs) && opt_ref_related(x.lhs_len, y.lhs_len, rel) && opt_ref_related(x.rhs_len, y.rhs_len, rel),
        (Op::PcmpStrMask(x), Op::PcmpStrMask(y)) => rel(x.lhs, y.lhs) && rel(x.rhs, y.rhs) && opt_ref_related(x.lhs_len, y.lhs_len, rel) && opt_ref_related(x.rhs_len, y.rhs_len, rel),
        (Op::PcmpStrFlags(x), Op::PcmpStrFlags(y)) => rel(x.lhs, y.lhs) && rel(x.rhs, y.rhs) && opt_ref_related(x.lhs_len, y.lhs_len, rel) && opt_ref_related(x.rhs_len, y.rhs_len, rel),
        (Op::VecShuffle32x4(x), Op::VecShuffle32x4(y)) => rel(x.src, y.src),
        (Op::VecUnpack(x), Op::VecUnpack(y)) => rel(x.lhs, y.lhs) && rel(x.rhs, y.rhs),
        (Op::VecShiftImm(x), Op::VecShiftImm(y)) => rel(x.src, y.src),
        (Op::VecShiftBytes(x), Op::VecShiftBytes(y)) => rel(x.src, y.src),
        (Op::IntToFpScalar(x), Op::IntToFpScalar(y)) => rel(x.value, y.value),
        (Op::FpToIntScalar(x), Op::FpToIntScalar(y)) => rel(x.value, y.value),
        (Op::FpCvtScalar(x), Op::FpCvtScalar(y)) => rel(x.lhs, y.lhs) && rel(x.src, y.src),
        (Op::VecShuffle2Src(x), Op::VecShuffle2Src(y)) => rel(x.lhs, y.lhs) && rel(x.rhs, y.rhs),
        (Op::VecInsertLane(x), Op::VecInsertLane(y)) => rel(x.lhs_xmm, y.lhs_xmm) && rel(x.value, y.value),
        (Op::VecExtractLaneU(x), Op::VecExtractLaneU(y)) => rel(x.src_xmm, y.src_xmm),
        (Op::VecMaskMsb(x), Op::VecMaskMsb(y)) => rel(x.src_xmm, y.src_xmm),
        (Op::WriteFlagsFp(x), Op::WriteFlagsFp(y)) => rel(x.lhs, y.lhs) && rel(x.rhs, y.rhs),
        (Op::VecShuffleH4(x), Op::VecShuffleH4(y)) => rel(x.src, y.src),
        (Op::VecMaskFp(x), Op::VecMaskFp(y)) => rel(x.src_xmm, y.src_xmm),
        (Op::VecFpCompare(x), Op::VecFpCompare(y)) => rel(x.lhs, y.lhs) && rel(x.rhs, y.rhs),
        (Op::VecPshufb(x), Op::VecPshufb(y)) => rel(x.src, y.src) && rel(x.mask, y.mask),
        (Op::VecAbs(x), Op::VecAbs(y)) => rel(x.src, y.src),
        (Op::VecAlignr(x), Op::VecAlignr(y)) => rel(x.lhs, y.lhs) && rel(x.rhs, y.rhs),
        (Op::VecExtend(x), Op::VecExtend(y)) => rel(x.src, y.src),
        (Op::VecFpRound(x), Op::VecFpRound(y)) => rel(x.lhs, y.lhs) && rel(x.src, y.src),
        (Op::Popcnt(x), Op::Popcnt(y)) => rel(x.value, y.value),
        (Op::Lzcnt(x), Op::Lzcnt(y)) => rel(x.value, y.value),
        (Op::Tzcnt(x), Op::Tzcnt(y)) => rel(x.value, y.value),
        (Op::WriteFlagsPopcnt(x), Op::WriteFlagsPopcnt(y)) => rel(x.src, y.src),
        (Op::WriteFlagsCountZero(x), Op::WriteFlagsCountZero(y)) => rel(x.src, y.src) && rel(x.result, y.result),
        (Op::VecBlend(x), Op::VecBlend(y)) => rel(x.dst, y.dst) && rel(x.src, y.src) && rel(x.mask, y.mask),
        (Op::WriteFlagsPtest(x), Op::WriteFlagsPtest(y)) => rel(x.lhs, y.lhs) && rel(x.rhs, y.rhs),
        (Op::WriteFlagsPtestYmm(x), Op::WriteFlagsPtestYmm(y)) => rel(x.lo_lhs, y.lo_lhs) && rel(x.lo_rhs, y.lo_rhs) && rel(x.hi_lhs, y.hi_lhs) && rel(x.hi_rhs, y.hi_rhs),
        (Op::VecTbl2(x), Op::VecTbl2(y)) => rel(x.src_lo, y.src_lo) && rel(x.src_hi, y.src_hi) && rel(x.idx, y.idx),
        (Op::VecAes(x), Op::VecAes(y)) => rel(x.src, y.src) && rel(x.key, y.key),
        (Op::VecAesKeygenAssist(x), Op::VecAesKeygenAssist(y)) => rel(x.src, y.src),
        (Op::VecSha(x), Op::VecSha(y)) => rel(x.a, y.a) && rel(x.b, y.b) && rel(x.wk, y.wk),
        (Op::Bswap(x), Op::Bswap(y)) => rel(x.value, y.value),
        (Op::Crc32c(x), Op::Crc32c(y)) => rel(x.crc, y.crc) && rel(x.data, y.data),
        (Op::VecGather(x), Op::VecGather(y)) => rel(x.base, y.base) && rel(x.index, y.index) && rel(x.mask, y.mask) && rel(x.prev, y.prev),
        (Op::StoreVecRegHi(x), Op::StoreVecRegHi(y)) => rel(x.value, y.value),
        (Op::VecFpFma(x), Op::VecFpFma(y)) => rel(x.a, y.a) && rel(x.b, y.b) && rel(x.c, y.c),
        (Op::VecFpScalarFma(x), Op::VecFpScalarFma(y)) => rel(x.a, y.a) && rel(x.b, y.b) && rel(x.c, y.c) && rel(x.scalar_upper, y.scalar_upper),
        (Op::X87Store(x), Op::X87Store(y)) => rel(x.value, y.value),
        (Op::X87Push(x), Op::X87Push(y)) => rel(x.value, y.value),
        (Op::ReadCarryOut(x), Op::ReadCarryOut(y)) => rel(x.flags, y.flags),
        (Op::StoreCarry(x), Op::StoreCarry(y)) => rel(x.value, y.value),
        (Op::StoreRflags(x), Op::StoreRflags(y)) => rel(x.value, y.value),
        (Op::StoreRflagsFromNzcv(x), Op::StoreRflagsFromNzcv(y)) => opt_ref_related(x.pf, y.pf, rel) && opt_ref_related(x.af, y.af, rel),
        (Op::StoreRflagsFromBits(x), Op::StoreRflagsFromBits(y)) => opt_ref_related(x.pf, y.pf, rel) && opt_ref_related(x.af, y.af, rel) && rel(x.zf, y.zf) && rel(x.sf, y.sf) && rel(x.of, y.of),
        _ => true,
    }
}

/// An optional ref mapped by `g`.
pub open spec fn opt_ref_map(r: Option<Ref>, g: spec_fn(Ref) -> Ref) -> Option<Ref> {
    match r {
        Some(x) => Some(g(x)),
        None => None,
    }
}

/// The op with every stored ref `r` replaced by `g(r)`.
pub open spec fn op_with_refs(op: Op, g: spec_fn(Ref) -> Ref) -> Op {
    match op {
        Op::StoreReg(x) => Op::StoreReg(StoreReg { value: g(x.value), ..x }),
        Op::BinOp(x) => Op::BinOp(BinOp { lhs: g(x.lhs), rhs: g(x.rhs), ..x }),
        Op::WideDiv(x) => Op::WideDiv(WideDiv { high: g(x.high), low: g(x.low), divisor: g(x.divisor), ..x }),
        Op::Compare(x) => Op::Compare(Compare { lhs: g(x.lhs), rhs: g(x.rhs), ..x }),
        Op::Select(x) => Op::Select(Select { true_value: g(x.true_value), false_value: g(x.false_value), ..x }),
        Op::LoadMem(x) => Op::LoadMem(LoadMem { addr: g(x.addr), ..x }),
        Op::StoreMem(x) => Op::StoreMem(StoreMem { addr: g(x.addr), value: g(x.value), ..x }),
        Op::LoadMemTSO(x) => Op::LoadMemTSO(LoadMemTSO { addr: g(x.addr), ..x }),
        Op::StoreMemTSO(x) => Op::StoreMemTSO(StoreMemTSO { addr: g(x.addr), value: g(x.value), ..x }),
        Op::AtomicCmpxchg(x) => Op::AtomicCmpxchg(AtomicCmpxchg { addr: g(x.addr), expected: g(x.expected), new_value: g(x.new_value), ..x }),
        Op::AtomicXchg(x) => Op::AtomicXchg(AtomicXchg { addr: g(x.addr), value: g(x.value), ..x }),
        Op::AtomicXadd(x) => Op::AtomicXadd(AtomicXadd { addr: g(x.addr), value: g(x.value), ..x }),
        Op::AtomicCmpxchgPair(x) => Op::AtomicCmpxchgPair(AtomicCmpxchgPair { addr: g(x.addr), expected_low: g(x.expected_low), expected_high: g(x.expected_high), new_low: g(x.new_low), new_high: g(x.new_high), old_high: g(x.old_high), ..x }),
        Op::CondJump(x) => Op::CondJump(CondJump { cond: g(x.cond), ..x }),
        Op::CmpFlags(x) => Op::CmpFlags(CmpFlags { lhs: g(x.lhs), rhs: g(x.rhs), ..x }),
        Op::AluFlags(x) => Op::AluFlags(AluFlags { lhs: g(x.lhs), rhs: g(x.rhs), ..x }),
        Op::AluFlagsPreserveCarry(x) => Op::AluFlagsPreserveCarry(AluFlagsPreserveCarry { lhs: g(x.lhs), rhs: g(x.rhs), ..x }),
        Op::JumpReg(x) => Op::JumpReg(JumpReg { target: g(x.target), ..x }),
        Op::CallReg(x) => Op::CallReg(CallReg { target: g(x.target), ..x }),
        Op::TrapIf(x) => Op::TrapIf(TrapIf { condition: g(x.condition), ..x }),
        Op::Extend(x) => Op::Extend(Extend { value: g(x.value), ..x }),
        Op::Truncate(x) => Op::Truncate(Truncate { value: g(x.value), ..x }),
        Op::FpBinOp(x) => Op::FpBinOp(FpBinOp { lhs: g(x.lhs), rhs: g(x.rhs), ..x }),
        Op::WriteFlags(x) => Op::WriteFlags(WriteFlags { lhs: g(x.lhs), rhs: g(x.rhs), ..x }),
        Op::ReadFlag(x) => Op::ReadFlag(ReadFlag { flags: g(x.flags), ..x }),
        Op::CondJumpFlags(x) => Op::CondJumpFlags(CondJumpFlags { flags: g(x.flags), ..x }),
        Op::VecBinOp(x) => Op::VecBinOp(VecBinOp { lhs: g(x.lhs), rhs: g(x.rhs), ..x }),
        Op::VecClMul(x) => Op::VecClMul(VecClMul { lhs: g(x.lhs), rhs: g(x.rhs), ..x }),
        Op::VecF16Cvt(x) => Op::VecF16Cvt(VecF16Cvt { src: g(x.src), ..x }),
        Op::StoreVecReg(x) => Op::StoreVecReg(StoreVecReg { value: g(x.value), ..x }),
        Op::LoadVec(x) => Op::LoadVec(LoadVec { addr: g(x.addr), ..x }),
        Op::StoreVec(x) => Op::StoreVec(StoreVec { addr: g(x.addr), value: g(x.value), ..x }),
        Op::VecFpBinOp(x) => Op::VecFpBinOp(VecFpBinOp { lhs: g(x.lhs), rhs: g(x.rhs), ..x }),
        Op::VecFpScalarBinOp(x) => Op::VecFpScalarBinOp(VecFpScalarBinOp { lhs: g(x.lhs), rhs: g(x.rhs), ..x }),
        Op::XmmFromGpr(x) => Op::XmmFromGpr(XmmFromGpr { value: g(x.value), ..x }),
        Op::GprFromXmm(x) => Op::GprFromXmm(GprFromXmm { value: g(x.value), ..x }),
        Op::VecCmp(x) => Op::VecCmp(VecCmp { lhs: g(x.lhs), rhs: g(x.rhs), ..x }),
        Op::PcmpStrIndex(x) => Op::PcmpStrIndex(PcmpStrIndex { lhs: g(x.lhs), rhs: g(x.rhs), lhs_len: opt_ref_map(x.lhs_len, g), rhs_len: opt_ref_map(x.rhs_len, g), ..x }),
        Op::PcmpStrMask(x) => Op::PcmpStrMask(PcmpStrMask { lhs: g(x.lhs), rhs: g(x.rhs), lhs_len: opt_ref_map(x.lhs_len, g), rhs_len: opt_ref_map(x.rhs_len, g), ..x }),
        Op::PcmpStrFlags(x) => Op::PcmpStrFlags(PcmpStrFlags { lhs: g(x.lhs), rhs: g(x.rhs), lhs_len: opt_ref_map(x.lhs_len, g), rhs_len: opt_ref_map(x.rhs_len, g), ..x }),
        Op::VecShuffle32x4(x) => Op::VecShuffle32x4(VecShuffle32x4 { src: g(x.src), ..x }),
        Op::VecUnpack(x) => Op::VecUnpack(VecUnpack { lhs: g(x.lhs), rhs: g(x.rhs), ..x }),
        Op::VecShiftImm(x) => Op::VecShiftImm(VecShiftImm { src: g(x.src), ..x }),
        Op::VecShiftBytes(x) => Op::VecShiftBytes(VecShiftBytes { src: g(x.src), ..x }),
        Op::IntToFpScalar(x) => Op::IntToFpScalar(IntToFpScalar { value: g(x.value), ..x }),
        Op::FpToIntScalar(x) => Op::FpToIntScalar(FpToIntScalar { value: g(x.value), ..x }),
        Op::FpCvtScalar(x) => Op::FpCvtScalar(FpCvtScalar { lhs: g(x.lhs), src: g(x.src), ..x }),
        Op::VecShuffle2Src(x) => Op::VecShuffle2Src(VecShuffle2Src { lhs: g(x.lhs), rhs: g(x.rhs), ..x }),
        Op::VecInsertLane(x) => Op::VecInsertLane(VecInsertLane { lhs_xmm: g(x.lhs_xmm), value: g(x.value), ..x }),
        Op::VecExtractLaneU(x) => Op::VecExtractLaneU(VecExtractLaneU { src_xmm: g(x.src_xmm), ..x }),
        Op::VecMaskMsb(x) => Op::VecMaskMsb(VecMaskMsb { src_xmm: g(x.src_xmm), ..x }),
        Op::WriteFlagsFp(x) => Op::WriteFlagsFp(WriteFlagsFp { lhs: g(x.lhs), rhs: g(x.rhs), ..x }),
        Op::VecShuffleH4(x) => Op::VecShuffleH4(VecShuffleH4 { src: g(x.src), ..x }),
        Op::VecMaskFp(x) => Op::VecMaskFp(VecMaskFp { src_xmm: g(x.src_xmm), ..x }),
        Op::VecFpCompare(x) => Op::VecFpCompare(VecFpCompare { lhs: g(x.lhs), rhs: g(x.rhs), ..x }),
        Op::VecPshufb(x) => Op::VecPshufb(VecPshufb { src: g(x.src), mask: g(x.mask), ..x }),
        Op::VecAbs(x) => Op::VecAbs(VecAbs { src: g(x.src), ..x }),
        Op::VecAlignr(x) => Op::VecAlignr(VecAlignr { lhs: g(x.lhs), rhs: g(x.rhs), ..x }),
        Op::VecExtend(x) => Op::VecExtend(VecExtend { src: g(x.src), ..x }),
        Op::VecFpRound(x) => Op::VecFpRound(VecFpRound { lhs: g(x.lhs), src: g(x.src), ..x }),
        Op::Popcnt(x) => Op::Popcnt(Popcnt { value: g(x.value), ..x }),
        Op::Lzcnt(x) => Op::Lzcnt(Lzcnt { value: g(x.value), ..x }),
        Op::Tzcnt(x) => Op::Tzcnt(Tzcnt { value: g(x.value), ..x }),
        Op::WriteFlagsPopcnt(x) => Op::WriteFlagsPopcnt(WriteFlagsPopcnt { src: g(x.src), ..x }),
        Op::WriteFlagsCountZero(x) => Op::WriteFlagsCountZero(WriteFlagsCountZero { src: g(x.src), result: g(x.result), ..x }),
        Op::VecBlend(x) => Op::VecBlend(VecBlend { dst: g(x.dst), src: g(x.src), mask: g(x.mask), ..x }),
        Op::WriteFlagsPtest(x) => Op::WriteFlagsPtest(WriteFlagsPtest { lhs: g(x.lhs), rhs: g(x.rhs), ..x }),
        Op::WriteFlagsPtestYmm(x) => Op::WriteFlagsPtestYmm(WriteFlagsPtestYmm { lo_lhs: g(x.lo_lhs), lo_rhs: g(x.lo_rhs), hi_lhs: g(x.hi_lhs), hi_rhs: g(x.hi_rhs), ..x }),
        Op::VecTbl2(x) => Op::VecTbl2(VecTbl2 { src_lo: g(x.src_lo), src_hi: g(x.src_hi), idx: g(x.idx), ..x }),
        Op::VecAes(x) => Op::VecAes(VecAes { src: g(x.src), key: g(x.key), ..x }),
        Op::VecAesKeygenAssist(x) => Op::VecAesKeygenAssist(VecAesKeygenAssist { src: g(x.src), ..x }),
        Op::VecSha(x) => Op::VecSha(VecSha { a: g(x.a), b: g(x.b), wk: g(x.wk), ..x }),
        Op::Bswap(x) => Op::Bswap(Bswap { value: g(x.value), ..x }),
        Op::Crc32c(x) => Op::Crc32c(Crc32c { crc: g(x.crc), data: g(x.data), ..x }),
        Op::VecGather(x) => Op::VecGather(VecGather { base: g(x.base), index: g(x.index), mask: g(x.mask), prev: g(x.prev), ..x }),
        Op::StoreVecRegHi(x) => Op::StoreVecRegHi(StoreVecRegHi { value: g(x.value), ..x }),
        Op::VecFpFma(x) => Op::VecFpFma(VecFpFma { a: g(x.a), b: g(x.b), c: g(x.c), ..x }),
        Op::VecFpScalarFma(x) => Op::VecFpScalarFma(VecFpScalarFma { a: g(x.a), b: g(x.b), c: g(x.c), scalar_upper: g(x.scalar_upper), ..x }),
        Op::X87Store(x) => Op::X87Store(X87Store { value: g(x.value), ..x }),
        Op::X87Push(x) => Op::X87Push(X87Push { value: g(x.value), ..x }),
        Op::ReadCarryOut(x) => Op::ReadCarryOut(ReadCarryOut { flags: g(x.flags), ..x }),
        Op::StoreCarry(x) => Op::StoreCarry(StoreCarry { value: g(x.value), ..x }),
        Op::StoreRflags(x) => Op::StoreRflags(StoreRflags { value: g(x.value), ..x }),
        Op::StoreRflagsFromNzcv(x) => Op::StoreRflagsFromNzcv(StoreRflagsFromNzcv { pf: opt_ref_map(x.pf, g), af: opt_ref_map(x.af, g), ..x }),
        Op::StoreRflagsFromBits(x) => Op::StoreRflagsFromBits(StoreRflagsFromBits { pf: opt_ref_map(x.pf, g), af: opt_ref_map(x.af, g), zf: g(x.zf), sf: g(x.sf), of: g(x.of), ..x }),
        _ => op,
    }
}

/// An op with the skeleton of `op` whose refs are, field by field, the
/// images under `g` of those of `op` is `op_with_refs(op, g)`.
pub proof fn lemma_op_with_refs(op: Op, o: Op, rel: spec_fn(Ref, Ref) -> bool, g: spec_fn(Ref) -> Ref)
    requires
        op_skeleton(o) == op_skeleton(op),
        op_refs_related(op, o, rel),
        forall|x: Ref, y: Ref| #[trigger] rel(x, y) ==> y == g(x),
    ensures
        o == op_with_refs(op, g),
{
    if op is StoreReg || op is BinOp || op is WideDiv || op is Compare || op is Select || op is LoadMem {
        lemma_op_with_refs_0(op, o, rel, g);
    } else if op is StoreMem || op is LoadMemTSO || op is StoreMemTSO || op is AtomicCmpxchg || op is AtomicXchg || op is AtomicXadd {
        lemma_op_with_refs_1(op, o, rel, g);
    } else if op is AtomicCmpxchgPair || op is CondJump || op is CmpFlags || op is AluFlags || op is AluFlagsPreserveCarry || op is JumpReg {
        lemma_op_with_refs_2(op, o, rel, g);
    } else if op is CallReg || op is TrapIf || op is Extend || op is Truncate || op is FpBinOp || op is WriteFlags {
        lemma_op_with_refs_3(op, o, rel, g);
    } else if op is ReadFlag || op is CondJumpFlags || op is VecBinOp || op is VecClMul || op is VecF16Cvt || op is StoreVecReg {
        lemma_op_with_refs_4(op, o, rel, g);
    } else if op is LoadVec || op is StoreVec || op is VecFpBinOp || op is VecFpScalarBinOp || op is XmmFromGpr || op is GprFromXmm {
        lemma_op_with_refs_5(op, o, rel, g);
    } else if op is VecCmp || op is PcmpStrIndex || op is PcmpStrMask || op is PcmpStrFlags || op is VecShuffle32x4 || op is VecUnpack {
        lemma_op_with_refs_6(op, o, rel, g);
    } else if op is VecShiftImm || op is VecShiftBytes || op is IntToFpScalar || op is FpToIntScalar || op is FpCvtScalar || op is VecShuffle2Src {
        lemma_op_with_refs_7(op, o, rel, g);
    } else if op is VecInsertLane || op is VecExtractLaneU || op is VecMaskMsb || op is WriteFlagsFp || op is VecShuffleH4 || op is VecMaskFp {
        lemma_op_with_refs_8(op, o, rel, g);
    } else if op is VecFpCompare || op is VecPshufb || op is VecAbs || op is VecAlignr || op is VecExtend || op is VecFpRound {
        lemma_op_with_refs_9(op, o, rel, g);
    } else if op is Popcnt || op is Lzcnt || op is Tzcnt || op is WriteFlagsPopcnt || op is WriteFlagsCountZero || op is VecBlend {
        lemma_op_with_refs_10(op, o, rel, g);
    } else if op is WriteFlagsPtest || op is WriteFlagsPtestYmm || op is VecTbl2 || op is VecAes || op is VecAesKeygenAssist || op is VecSha {
        lemma_op_with_refs_11(op, o, rel, g);
    } else if op is Bswap || op is Crc32c || op is VecGather || op is StoreVecRegHi || op is VecFpFma || op is VecFpScalarFma {
        lemma_op_with_refs_12(op, o, rel, g);
    } else if op is X87Store || op is X87Push || op is ReadCarryOut || op is StoreCarry || op is StoreRflags || op is StoreRflagsFromNzcv {
        lemma_op_with_refs_13(op, o, rel, g);
    } else if op is StoreRflagsFromBits {
        lemma_op_with_refs_14(op, o, rel, g);
    } else {
        lemma_op_without_refs(op, o, g);
    }
}

proof fn lemma_op_without_refs(op: Op, o: Op, g: spec_fn(Ref) -> Ref)
    requires
        op_skeleton(o) == op_skeleton(op),
        !(op is StoreReg || op is BinOp || op is WideDiv || op is Compare || op is Select || op is LoadMem || op is StoreMem || op is LoadMemTSO || op is StoreMemTSO || op is AtomicCmpxchg || op is AtomicXchg || op is AtomicXadd || op is AtomicCmpxchgPair || op is CondJump || op is CmpFlags || op is AluFlags || op is AluFlagsPreserveCarry || op is JumpReg || op is CallReg || op is TrapIf || op is Extend || op is Truncate || op is FpBinOp || op is WriteFlags || op is ReadFlag || op is CondJumpFlags || op is VecBinOp || op is VecClMul || op is VecF16Cvt || op is StoreVecReg || op is LoadVec || op is StoreVec || op is VecFpBinOp || op is VecFpScalarBinOp || op is XmmFromGpr || op is GprFromXmm || op is VecCmp || op is PcmpStrIndex || op is PcmpStrMask || op is PcmpStrFlags || op is VecShuffle32x4 || op is VecUnpack || op is VecShiftImm || op is VecShiftBytes || op is IntToFpScalar || op is FpToIntScalar || op is FpCvtScalar || op is VecShuffle2Src || op is VecInsertLane || op is VecExtractLaneU || op is VecMaskMsb || op is WriteFlagsFp || op is VecShuffleH4 || op is VecMaskFp || op is VecFpCompare || op is VecPshufb || op is VecAbs || op is VecAlignr || op is VecExtend || op is VecFpRound || op is Popcnt || op is Lzcnt || op is Tzcnt || op is WriteFlagsPopcnt || op is WriteFlagsCountZero || op is VecBlend || op is WriteFlagsPtest || op is WriteFlagsPtestYmm || op is VecTbl2 || op is VecAes || op is VecAesKeygenAssist || op is VecSha || op is Bswap || op is Crc32c || op is VecGather || op is StoreVecRegHi || op is VecFpFma || op is VecFpScalarFma || op is X87Store || op is X87Push || op is ReadCarryOut || op is StoreCarry || op is StoreRflags || op is StoreRflagsFromNzcv || op is StoreRflagsFromBits),
    ensures
        o == op_with_refs(op, g),
{
}

proof fn lemma_op_with_refs_0(op: Op, o: Op, rel: spec_fn(Ref, Ref) -> bool, g: spec_fn(Ref) -> Ref)
    requires
        op_skeleton(o) == op_skeleton(op),
        op_refs_related(op, o, rel),
        forall|x: Ref, y: Ref| #[trigger] rel(x, y) ==> y == g(x),
        op is StoreReg || op is BinOp || op is WideDiv || op is Compare || op is Select || op is LoadMem,
    ensures
        o == op_with_refs(op, g),
{
    match op {
        Op::StoreReg(_) => {},
        Op::BinOp(_) => {},
        Op::WideDiv(_) => {},
        Op::Compare(_) => {},
        Op::Select(_) => {},
        Op::LoadMem(_) => {},
        _ => {},
    }
}

proof fn lemma_op_with_refs_1(op: Op, o: Op, rel: spec_fn(Ref, Ref) -> bool, g: spec_fn(Ref) -> Ref)
    requires
        op_skeleton(o) == op_skeleton(op),
        op_refs_related(op, o, rel),
        forall|x: Ref, y: Ref| #[trigger] rel(x, y) ==> y == g(x),
        op is StoreMem || op is LoadMemTSO || op is StoreMemTSO || op is AtomicCmpxchg || op is AtomicXchg || op is AtomicXadd,
    ensures
        o == op_with_refs(op, g),
{
    match op {
        Op::StoreMem(_) => {},
        Op::LoadMemTSO(_) => {},
        Op::StoreMemTSO(_) => {},
        Op::AtomicCmpxchg(_) => {},
        Op::AtomicXchg(_) => {},
        Op::AtomicXadd(_) => {},
        _ => {},
    }
}

proof fn lemma_op_with_refs_2(op: Op, o: Op, rel: spec_fn(Ref, Ref) -> bool, g: spec_fn(Ref) -> Ref)
    requires
        op_skeleton(o) == op_skeleton(op),
        op_refs_related(op, o, rel),
        forall|x: Ref, y: Ref| #[trigger] rel(x, y) ==> y == g(x),
        op is AtomicCmpxchgPair || op is CondJump || op is CmpFlags || op is AluFlags || op is AluFlagsPreserveCarry || op is JumpReg,
    ensures
        o == op_with_refs(op, g),
{
    match op {
        Op::AtomicCmpxchgPair(_) => {},
        Op::CondJump(_) => {},
        Op::CmpFlags(_) => {},
        Op::AluFlags(_) => {},
        Op::AluFlagsPreserveCarry(_) => {},
        Op::JumpReg(_) => {},
        _ => {},
    }
}

proof fn lemma_op_with_refs_3(op: Op, o: Op, rel: spec_fn(Ref, Ref) -> bool, g: spec_fn(Ref) -> Ref)
    requires
        op_skeleton(o) == op_skeleton(op),
        op_refs_related(op, o, rel),
        forall|x: Ref, y: Ref| #[trigger] rel(x, y) ==> y == g(x),
        op is CallReg || op is TrapIf || op is Extend || op is Truncate || op is FpBinOp || op is WriteFlags,
    ensures
        o == op_with_refs(op, g),
{
    match op {
        Op::CallReg(_) => {},
        Op::TrapIf(_) => {},
        Op::Extend(_) => {},
        Op::Truncate(_) => {},
        Op::FpBinOp(_) => {},
        Op::WriteFlags(_) => {},
        _ => {},
    }
}

proof fn lemma_op_with_refs_4(op: Op, o: Op, rel: spec_fn(Ref, Ref) -> bool, g: spec_fn(Ref) -> Ref)
    requires
        op_skeleton(o) == op_skeleton(op),
        op_refs_related(op, o, rel),
        forall|x: Ref, y: Ref| #[trigger] rel(x, y) ==> y == g(x),
        op is ReadFlag || op is CondJumpFlags || op is VecBinOp || op is VecClMul || op is VecF16Cvt || op is StoreVecReg,
    ensures
        o == op_with_refs(op, g),
{
    match op {
        Op::ReadFlag(_) => {},
        Op::CondJumpFlags(_) => {},
        Op::VecBinOp(_) => {},
        Op::VecClMul(_) => {},
        Op::VecF16Cvt(_) => {},
        Op::StoreVecReg(_) => {},
        _ => {},
    }
}

proof fn lemma_op_with_refs_5(op: Op, o: Op, rel: spec_fn(Ref, Ref) -> bool, g: spec_fn(Ref) -> Ref)
    requires
        op_skeleton(o) == op_skeleton(op),
        op_refs_related(op, o, rel),
        forall|x: Ref, y: Ref| #[trigger] rel(x, y) ==> y == g(x),
        op is LoadVec || op is StoreVec || op is VecFpBinOp || op is VecFpScalarBinOp || op is XmmFromGpr || op is GprFromXmm,
    ensures
        o == op_with_refs(op, g),
{
    match op {
        Op::LoadVec(_) => {},
        Op::StoreVec(_) => {},
        Op::VecFpBinOp(_) => {},
        Op::VecFpScalarBinOp(_) => {},
        Op::XmmFromGpr(_) => {},
        Op::GprFromXmm(_) => {},
        _ => {},
    }
}

proof fn lemma_op_with_refs_6(op: Op, o: Op, rel: spec_fn(Ref, Ref) -> bool, g: spec_fn(Ref) -> Ref)
    requires
        op_skeleton(o) == op_skeleton(op),
        op_refs_related(op, o, rel),
        forall|x: Ref, y: Ref| #[trigger] rel(x, y) ==> y == g(x),
        op is VecCmp || op is PcmpStrIndex || op is PcmpStrMask || op is PcmpStrFlags || op is VecShuffle32x4 || op is VecUnpack,
    ensures
        o == op_with_refs(op, g),
{
    match op {
        Op::VecCmp(_) => {},
        Op::PcmpStrIndex(_) => {},
        Op::PcmpStrMask(_) => {},
        Op::PcmpStrFlags(_) => {},
        Op::VecShuffle32x4(_) => {},
        Op::VecUnpack(_) => {},
        _ => {},
    }
}

proof fn lemma_op_with_refs_7(op: Op, o: Op, rel: spec_fn(Ref, Ref) -> bool, g: spec_fn(Ref) -> Ref)
    requires
        op_skeleton(o) == op_skeleton(op),
        op_refs_related(op, o, rel),
        forall|x: Ref, y: Ref| #[trigger] rel(x, y) ==> y == g(x),
        op is VecShiftImm || op is VecShiftBytes || op is IntToFpScalar || op is FpToIntScalar || op is FpCvtScalar || op is VecShuffle2Src,
    ensures
        o == op_with_refs(op, g),
{
    match op {
        Op::VecShiftImm(_) => {},
        Op::VecShiftBytes(_) => {},
        Op::IntToFpScalar(_) => {},
        Op::FpToIntScalar(_) => {},
        Op::FpCvtScalar(_) => {},
        Op::VecShuffle2Src(_) => {},
        _ => {},
    }
}

proof fn lemma_op_with_refs_8(op: Op, o: Op, rel: spec_fn(Ref, Ref) -> bool, g: spec_fn(Ref) -> Ref)
    requires
        op_skeleton(o) == op_skeleton(op),
        op_refs_related(op, o, rel),
        forall|x: Ref, y: Ref| #[trigger] rel(x, y) ==> y == g(x),
        op is VecInsertLane || op is VecExtractLaneU || op is VecMaskMsb || op is WriteFlagsFp || op is VecShuffleH4 || op is VecMaskFp,
    ensures
        o == op_with_refs(op, g),
{
    match op {
        Op::VecInsertLane(_) => {},
        Op::VecExtractLaneU(_) => {},
        Op::VecMaskMsb(_) => {},
        Op::WriteFlagsFp(_) => {},
        Op::VecShuffleH4(_) => {},
        Op::VecMaskFp(_) => {},
        _ => {},
    }
}

proof fn lemma_op_with_refs_9(op: Op, o: Op, rel: spec_fn(Ref, Ref) -> bool, g: spec_fn(Ref) -> Ref)
    requires
        op_skeleton(o) == op_skeleton(op),
        op_refs_related(op, o, rel),
        forall|x: Ref, y: Ref| #[trigger] rel(x, y) ==> y == g(x),
        op is VecFpCompare || op is VecPshufb || op is VecAbs || op is VecAlignr || op is VecExtend || op is VecFpRound,
    ensures
        o == op_with_refs(op, g),
{
    match op {
        Op::VecFpCompare(_) => {},
        Op::VecPshufb(_) => {},
        Op::VecAbs(_) => {},
        Op::VecAlignr(_) => {},
        Op::VecExtend(_) => {},
        Op::VecFpRound(_) => {},
        _ => {},
    }
}

proof fn lemma_op_with_refs_10(op: Op, o: Op, rel: spec_fn(Ref, Ref) -> bool, g: spec_fn(Ref) -> Ref)
    requires
        op_skeleton(o) == op_skeleton(op),
        op_refs_related(op, o, rel),
        forall|x: Ref, y: Ref| #[trigger] rel(x, y) ==> y == g(x),
        op is Popcnt || op is Lzcnt || op is Tzcnt || op is WriteFlagsPopcnt || op is WriteFlagsCountZero || op is VecBlend,
    ensures
        o == op_with_refs(op, g),
{
    match op {
        Op::Popcnt(_) => {},
        Op::Lzcnt(_) => {},
        Op::Tzcnt(_) => {},
        Op::WriteFlagsPopcnt(_) => {},
        Op::WriteFlagsCountZero(_) => {},
        Op::VecBlend(_) => {},
        _ => {},
    }
}

proof fn lemma_op_with_refs_11(op: Op, o: Op, rel: spec_fn(Ref, Ref) -> bool, g: spec_fn(Ref) -> Ref)
    requires
        op_skeleton(o) == op_skeleton(op),
        op_refs_related(op, o, rel),
        forall|x: Ref, y: Ref| #[trigger] rel(x, y) ==> y == g(x),
        op is WriteFlagsPtest || op is WriteFlagsPtestYmm || op is VecTbl2 || op is VecAes || op is VecAesKeygenAssist || op is VecSha,
    ensures
        o == op_with_refs(op, g),
{
    match op {
        Op::WriteFlagsPtest(_) => {},
        Op::WriteFlagsPtestYmm(_) => {},
        Op::VecTbl2(_) => {},
        Op::VecAes(_) => {},
        Op::VecAesKeygenAssist(_) => {},
        Op::VecSha(_) => {},
        _ => {},
    }
}

proof fn lemma_op_with_refs_12(op: Op, o: Op, rel: spec_fn(Ref, Ref) -> bool, g: spec_fn(Ref) -> Ref)
    requires
        op_skeleton(o) == op_skeleton(op),
        op_refs_related(op, o, rel),
        forall|x: Ref, y: Ref| #[trigger] rel(x, y) ==> y == g(x),
        op is Bswap || op is Crc32c || op is VecGather || op is StoreVecRegHi || op is VecFpFma || op is VecFpScalarFma,
    ensures
        o == op_with_refs(op, g),
{
    match op {
        Op::Bswap(_) => {},
        Op::Crc32c(_) => {},
        Op::VecGather(_) => {},
        Op::StoreVecRegHi(_) => {},
        Op::VecFpFma(_) => {},
        Op::VecFpScalarFma(_) => {},
        _ => {},
    }
}

proof fn lemma_op_with_refs_13(op: Op, o: Op, rel: spec_fn(Ref, Ref) -> bool, g: spec_fn(Ref) -> Ref)
    requires
        op_skeleton(o) == op_skeleton(op),
        op_refs_related(op, o, rel),
        forall|x: Ref, y: Ref| #[trigger] rel(x, y) ==> y == g(x),
        op is X87Store || op is X87Push || op is ReadCarryOut || op is StoreCarry || op is StoreRflags || op is StoreRflagsFromNzcv,
    ensures
        o == op_with_refs(op, g),
{
    match op {
        Op::X87Store(_) => {},
        Op::X87Push(_) => {},
        Op::ReadCarryOut(_) => {},
        Op::StoreCarry(_) => {},
        Op::StoreRflags(_) => {},
        Op::StoreRflagsFromNzcv(_) => {},
        _ => {},
    }
}

proof fn lemma_op_with_refs_14(op: Op, o: Op, rel: spec_fn(Ref, Ref) -> bool, g: spec_fn(Ref) -> Ref)
    requires
        op_skeleton(o) == op_skeleton(op),
        op_refs_related(op, o, rel),
        forall|x: Ref, y: Ref| #[trigger] rel(x, y) ==> y == g(x),
        op is StoreRflagsFromBits,
    ensures
        o == op_with_refs(op, g),
{
    match op {
        Op::StoreRflagsFromBits(_) => {},
        _ => {},
    }
}

/// The op with every stored ref replaced by 0 (an optional ref keeps whether it
/// is present). Two ops agree on everything but their refs iff their skeletons
/// are equal.
pub open spec fn op_skeleton(op: Op) -> Op {
    match op {
        Op::Constant(x) => Op::Constant(x),
        Op::LoadReg(x) => Op::LoadReg(x),
        Op::StoreReg(x) => Op::StoreReg(StoreReg { value: 0u32, ..x }),
        Op::LoadSegBase(x) => Op::LoadSegBase(x),
        Op::BinOp(x) => Op::BinOp(BinOp { lhs: 0u32, rhs: 0u32, ..x }),
        Op::WideDiv(x) => Op::WideDiv(WideDiv { high: 0u32, low: 0u32, divisor: 0u32, ..x }),
        Op::Compare(x) => Op::Compare(Compare { lhs: 0u32, rhs: 0u32, ..x }),
        Op::Select(x) => Op::Select(Select { true_value: 0u32, false_value: 0u32, ..x }),
        Op::LoadMem(x) => Op::LoadMem(LoadMem { addr: 0u32, ..x }),
        Op::StoreMem(x) => Op::StoreMem(StoreMem { addr: 0u32, value: 0u32, ..x }),
        Op::LoadMemTSO(x) => Op::LoadMemTSO(LoadMemTSO { addr: 0u32, ..x }),
        Op::StoreMemTSO(x) => Op::StoreMemTSO(StoreMemTSO { addr: 0u32, value: 0u32, ..x }),
        Op::AtomicCmpxchg(x) => Op::AtomicCmpxchg(AtomicCmpxchg { addr: 0u32, expected: 0u32, new_value: 0u32, ..x }),
        Op::AtomicXchg(x) => Op::AtomicXchg(AtomicXchg { addr: 0u32, value: 0u32, ..x }),
        Op::AtomicXadd(x) => Op::AtomicXadd(AtomicXadd { addr: 0u32, value: 0u32, ..x }),
        Op::AtomicCmpxchgPair(x) => Op::AtomicCmpxchgPair(AtomicCmpxchgPair { addr: 0u32, expected_low: 0u32, expected_high: 0u32, new_low: 0u32, new_high: 0u32, old_high: 0u32, ..x }),
        Op::Jump(x) => Op::Jump(x),
        Op::CondJump(x) => Op::CondJump(CondJump { cond: 0u32, ..x }),
        Op::Return(x) => Op::Return(x),
        Op::CmpFlags(x) => Op::CmpFlags(CmpFlags { lhs: 0u32, rhs: 0u32, ..x }),
        Op::AluFlags(x) => Op::AluFlags(AluFlags { lhs: 0u32, rhs: 0u32, ..x }),
        Op::AluFlagsPreserveCarry(x) => Op::AluFlagsPreserveCarry(AluFlagsPreserveCarry { lhs: 0u32, rhs: 0u32, ..x }),
        Op::JumpReg(x) => Op::JumpReg(JumpReg { target: 0u32, ..x }),
        Op::JumpRel(x) => Op::JumpRel(x),
        Op::CondJumpRel(x) => Op::CondJumpRel(x),
        Op::CallRel(x) => Op::CallRel(x),
        Op::CallReg(x) => Op::CallReg(CallReg { target: 0u32, ..x }),
        Op::RetAdjusted(x) => Op::RetAdjusted(x),
        Op::Cpuid(x) => Op::Cpuid(x),
        Op::Xgetbv(x) => Op::Xgetbv(x),
        Op::Rdtsc(x) => Op::Rdtsc(x),
        Op::Syscall(x) => Op::Syscall(x),
        Op::Trap(x) => Op::Trap(x),
        Op::TrapIf(x) => Op::TrapIf(TrapIf { condition: 0u32, ..x }),
        Op::Extend(x) => Op::Extend(Extend { value: 0u32, ..x }),
        Op::Truncate(x) => Op::Truncate(Truncate { value: 0u32, ..x }),
        Op::Fence(x) => Op::Fence(x),
        Op::GuestPc(x) => Op::GuestPc(x),
        Op::InlineAsm(x) => Op::InlineAsm(x),
        Op::FpConstant(x) => Op::FpConstant(x),
        Op::FpBinOp(x) => Op::FpBinOp(FpBinOp { lhs: 0u32, rhs: 0u32, ..x }),
        Op::WriteFlags(x) => Op::WriteFlags(WriteFlags { lhs: 0u32, rhs: 0u32, ..x }),
        Op::ReadFlag(x) => Op::ReadFlag(ReadFlag { flags: 0u32, ..x }),
        Op::CondJumpFlags(x) => Op::CondJumpFlags(CondJumpFlags { flags: 0u32, ..x }),
        Op::RspAdjust(x) => Op::RspAdjust(x),
        Op::VecConstant(x) => Op::VecConstant(x),
        Op::VecBinOp(x) => Op::VecBinOp(VecBinOp { lhs: 0u32, rhs: 0u32, ..x }),
        Op::VecClMul(x) => Op::VecClMul(VecClMul { lhs: 0u32, rhs: 0u32, ..x }),
        Op::VecF16Cvt(x) => Op::VecF16Cvt(VecF16Cvt { src: 0u32, ..x }),
        Op::LoadVecReg(x) => Op::LoadVecReg(x),
        Op::StoreVecReg(x) => Op::StoreVecReg(StoreVecReg { value: 0u32, ..x }),
        Op::LoadVec(x) => Op::LoadVec(LoadVec { addr: 0u32, ..x }),
        Op::StoreVec(x) => Op::StoreVec(StoreVec { addr: 0u32, value: 0u32, ..x }),
        Op::VecFpBinOp(x) => Op::VecFpBinOp(VecFpBinOp { lhs: 0u32, rhs: 0u32, ..x }),
        Op::VecFpScalarBinOp(x) => Op::VecFpScalarBinOp(VecFpScalarBinOp { lhs: 0u32, rhs: 0u32, ..x }),
        Op::XmmFromGpr(x) => Op::XmmFromGpr(XmmFromGpr { value: 0u32, ..x }),
        Op::GprFromXmm(x) => Op::GprFromXmm(GprFromXmm { value: 0u32, ..x }),
        Op::VecCmp(x) => Op::VecCmp(VecCmp { lhs: 0u32, rhs: 0u32, ..x }),
        Op::PcmpStrIndex(x) => Op::PcmpStrIndex(PcmpStrIndex { lhs: 0u32, rhs: 0u32, lhs_len: opt_ref_skeleton(x.lhs_len), rhs_len: opt_ref_skeleton(x.rhs_len), ..x }),
        Op::PcmpStrMask(x) => Op::PcmpStrMask(PcmpStrMask { lhs: 0u32, rhs: 0u32, lhs_len: opt_ref_skeleton(x.lhs_len), rhs_len: opt_ref_skeleton(x.rhs_len), ..x }),
        Op::PcmpStrFlags(x) => Op::PcmpStrFlags(PcmpStrFlags { lhs: 0u32, rhs: 0u32, lhs_len: opt_ref_skeleton(x.lhs_len), rhs_len: opt_ref_skeleton(x.rhs_len), ..x }),
        Op::VecShuffle32x4(x) => Op::VecShuffle32x4(VecShuffle32x4 { src: 0u32, ..x }),
        Op::VecUnpack(x) => Op::VecUnpack(VecUnpack { lhs: 0u32, rhs: 0u32, ..x }),
        Op::VecShiftImm(x) => Op::VecShiftImm(VecShiftImm { src: 0u32, ..x }),
        Op::VecShiftBytes(x) => Op::VecShiftBytes(VecShiftBytes { src: 0u32, ..x }),
        Op::IntToFpScalar(x) => Op::IntToFpScalar(IntToFpScalar { value: 0u32, ..x }),
        Op::FpToIntScalar(x) => Op::FpToIntScalar(FpToIntScalar { value: 0u32, ..x }),
        Op::FpCvtScalar(x) => Op::FpCvtScalar(FpCvtScalar { lhs: 0u32, src: 0u32, ..x }),
        Op::VecShuffle2Src(x) => Op::VecShuffle2Src(VecShuffle2Src { lhs: 0u32, rhs: 0u32, ..x }),
        Op::VecInsertLane(x) => Op::VecInsertLane(VecInsertLane { lhs_xmm: 0u32, value: 0u32, ..x }),
        Op::VecExtractLaneU(x) => Op::VecExtractLaneU(VecExtractLaneU { src_xmm: 0u32, ..x }),
        Op::VecMaskMsb(x) => Op::VecMaskMsb(VecMaskMsb { src_xmm: 0u32, ..x }),
        Op::WriteFlagsFp(x) => Op::WriteFlagsFp(WriteFlagsFp { lhs: 0u32, rhs: 0u32, ..x }),
        Op::VecShuffleH4(x) => Op::VecShuffleH4(VecShuffleH4 { src: 0u32, ..x }),
        Op::VecMaskFp(x) => Op::VecMaskFp(VecMaskFp { src_xmm: 0u32, ..x }),
        Op::VecFpCompare(x) => Op::VecFpCompare(VecFpCompare { lhs: 0u32, rhs: 0u32, ..x }),
        Op::VecPshufb(x) => Op::VecPshufb(VecPshufb { src: 0u32, mask: 0u32, ..x }),
        Op::VecAbs(x) => Op::VecAbs(VecAbs { src: 0u32, ..x }),
        Op::VecAlignr(x) => Op::VecAlignr(VecAlignr { lhs: 0u32, rhs: 0u32, ..x }),
        Op::VecExtend(x) => Op::VecExtend(VecExtend { src: 0u32, ..x }),
        Op::VecFpRound(x) => Op::VecFpRound(VecFpRound { lhs: 0u32, src: 0u32, ..x }),
        Op::Popcnt(x) => Op::Popcnt(Popcnt { value: 0u32, ..x }),
        Op::Lzcnt(x) => Op::Lzcnt(Lzcnt { value: 0u32, ..x }),
        Op::Tzcnt(x) => Op::Tzcnt(Tzcnt { value: 0u32, ..x }),
        Op::WriteFlagsPopcnt(x) => Op::WriteFlagsPopcnt(WriteFlagsPopcnt { src: 0u32, ..x }),
        Op::WriteFlagsCountZero(x) => Op::WriteFlagsCountZero(WriteFlagsCountZero { src: 0u32, result: 0u32, ..x }),
        Op::VecBlend(x) => Op::VecBlend(VecBlend { dst: 0u32, src: 0u32, mask: 0u32, ..x }),
        Op::WriteFlagsPtest(x) => Op::WriteFlagsPtest(WriteFlagsPtest { lhs: 0u32, rhs: 0u32, ..x }),
        Op::WriteFlagsPtestYmm(x) => Op::WriteFlagsPtestYmm(WriteFlagsPtestYmm { lo_lhs: 0u32, lo_rhs: 0u32, hi_lhs: 0u32, hi_rhs: 0u32, ..x }),
        Op::VecTbl2(x) => Op::VecTbl2(VecTbl2 { src_lo: 0u32, src_hi: 0u32, idx: 0u32, ..x }),
        Op::VecAes(x) => Op::VecAes(VecAes { src: 0u32, key: 0u32, ..x }),
        Op::VecAesKeygenAssist(x) => Op::VecAesKeygenAssist(VecAesKeygenAssist { src: 0u32, ..x }),
        Op::VecSha(x) => Op::VecSha(VecSha { a: 0u32, b: 0u32, wk: 0u32, ..x }),
        Op::Bswap(x) => Op::Bswap(Bswap { value: 0u32, ..x }),
        Op::Crc32c(x) => Op::Crc32c(Crc32c { crc: 0u32, data: 0u32, ..x }),
        Op::VecGather(x) => Op::VecGather(VecGather { base: 0u32, index: 0u32, mask: 0u32, prev: 0u32, ..x }),
        Op::LoadVecRegHi(x) => Op::LoadVecRegHi(x),
        Op::StoreVecRegHi(x) => Op::StoreVecRegHi(StoreVecRegHi { value: 0u32, ..x }),
        Op::VecFpFma(x) => Op::VecFpFma(VecFpFma { a: 0u32, b: 0u32, c: 0u32, ..x }),
        Op::VecFpScalarFma(x) => Op::VecFpScalarFma(VecFpScalarFma { a: 0u32, b: 0u32, c: 0u32, scalar_upper: 0u32, ..x }),
        Op::RepStos(x) => Op::RepStos(x),
        Op::RepMovs(x) => Op::RepMovs(x),
        Op::X87Load(x) => Op::X87Load(x),
        Op::X87Store(x) => Op::X87Store(X87Store { value: 0u32, ..x }),
        Op::X87Push(x) => Op::X87Push(X87Push { value: 0u32, ..x }),
        Op::X87Pop(x) => Op::X87Pop(x),
        Op::LoadCarry(x) => Op::LoadCarry(x),
        Op::ReadCarryOut(x) => Op::ReadCarryOut(ReadCarryOut { flags: 0u32, ..x }),
        Op::StoreCarry(x) => Op::StoreCarry(StoreCarry { value: 0u32, ..x }),
        Op::LoadRflags(x) => Op::LoadRflags(x),
        Op::StoreRflags(x) => Op::StoreRflags(StoreRflags { value: 0u32, ..x }),
        Op::StoreRflagsFromNzcv(x) => Op::StoreRflagsFromNzcv(StoreRflagsFromNzcv { pf: opt_ref_skeleton(x.pf), af: opt_ref_skeleton(x.af), ..x }),
        Op::StoreRflagsFromBits(x) => Op::StoreRflagsFromBits(StoreRflagsFromBits { pf: opt_ref_skeleton(x.pf), af: opt_ref_skeleton(x.af), zf: 0u32, sf: 0u32, of: 0u32, ..x }),
    }
}

/// The op with `f` applied to every stored ref (see `Op::map_refs`).
fn map_op_refs<F: Fn(Ref) -> Ref>(op: Op, f: &F) -> (r: Op)
    requires
        forall|v: Ref| f.requires((v,)),
    ensures
        op_skeleton(r) == op_skeleton(op),
        op_refs_related(op, r, |a: Ref, b: Ref| f.ensures((a,), b)),
        (forall|v: Ref, w: Ref| f.ensures((v,), w) ==> w == v) ==> r == op,
{
    match op {
        Op::StoreReg(_) | Op::BinOp(_) | Op::WideDiv(_) | Op::Compare(_) | Op::Select(_) | Op::LoadMem(_) => map_op_refs_0(op, f),
        Op::StoreMem(_) | Op::LoadMemTSO(_) | Op::StoreMemTSO(_) | Op::AtomicCmpxchg(_) | Op::AtomicXchg(_) | Op::AtomicXadd(_) => map_op_refs_1(op, f),
        Op::AtomicCmpxchgPair(_) | Op::CondJump(_) | Op::CmpFlags(_) | Op::AluFlags(_) | Op::AluFlagsPreserveCarry(_) | Op::JumpReg(_) => map_op_refs_2(op, f),
        Op::CallReg(_) | Op::TrapIf(_) | Op::Extend(_) | Op::Truncate(_) | Op::FpBinOp(_) | Op::WriteFlags(_) => map_op_refs_3(op, f),
        Op::ReadFlag(_) | Op::CondJumpFlags(_) | Op::VecBinOp(_) | Op::VecClMul(_) | Op::VecF16Cvt(_) | Op::StoreVecReg(_) => map_op_refs_4(op, f),
        Op::LoadVec(_) | Op::StoreVec(_) | Op::VecFpBinOp(_) | Op::VecFpScalarBinOp(_) | Op::XmmFromGpr(_) | Op::GprFromXmm(_) => map_op_refs_5(op, f),
        Op::VecCmp(_) | Op::PcmpStrIndex(_) | Op::PcmpStrMask(_) | Op::PcmpStrFlags(_) | Op::VecShuffle32x4(_) | Op::VecUnpack(_) => map_op_refs_6(op, f),
        Op::VecShiftImm(_) | Op::VecShiftBytes(_) | Op::IntToFpScalar(_) | Op::FpToIntScalar(_) | Op::FpCvtScalar(_) | Op::VecShuffle2Src(_) => map_op_refs_7(op, f),
        Op::VecInsertLane(_) | Op::VecExtractLaneU(_) | Op::VecMaskMsb(_) | Op::WriteFlagsFp(_) | Op::VecShuffleH4(_) | Op::VecMaskFp(_) => map_op_refs_8(op, f),
        Op::VecFpCompare(_) | Op::VecPshufb(_) | Op::VecAbs(_) | Op::VecAlignr(_) | Op::VecExtend(_) | Op::VecFpRound(_) => map_op_refs_9(op, f),
        Op::Popcnt(_) | Op::Lzcnt(_) | Op::Tzcnt(_) | Op::WriteFlagsPopcnt(_) | Op::WriteFlagsCountZero(_) | Op::VecBlend(_) => map_op_refs_10(op, f),
        Op::WriteFlagsPtest(_) | Op::WriteFlagsPtestYmm(_) | Op::VecTbl2(_) | Op::VecAes(_) | Op::VecAesKeygenAssist(_) | Op::VecSha(_) => map_op_refs_11(op, f),
        Op::Bswap(_) | Op::Crc32c(_) | Op::VecGather(_) | Op::StoreVecRegHi(_) | Op::VecFpFma(_) | Op::VecFpScalarFma(_) => map_op_refs_12(op, f),
        Op::X87Store(_) | Op::X87Push(_) | Op::ReadCarryOut(_) | Op::StoreCarry(_) | Op::StoreRflags(_) | Op::StoreRflagsFromNzcv(_) => map_op_refs_13(op, f),
        Op::StoreRflagsFromBits(_) => map_op_refs_14(op, f),
        other => other,
    }
}

#[verifier::spinoff_prover]
#[verifier::rlimit(40)]
fn map_op_refs_0<F: Fn(Ref) -> Ref>(op: Op, f: &F) -> (r: Op)
    requires
        forall|v: Ref| f.requires((v,)),
        matches!(op, Op::StoreReg(_) | Op::BinOp(_) | Op::WideDiv(_) | Op::Compare(_) | Op::Select(_) | Op::LoadMem(_)),
    ensures
        op_skeleton(r) == op_skeleton(op),
        op_refs_related(op, r, |a: Ref, b: Ref| f.ensures((a,), b)),
        (forall|v: Ref, w: Ref| f.ensures((v,), w) ==> w == v) ==> r == op,
{
    match op {
        Op::StoreReg(mut x) => {
            x.value = f(x.value);
            Op::StoreReg(x)
        },
        Op::BinOp(mut x) => {
            x.lhs = f(x.lhs);
            x.rhs = f(x.rhs);
            Op::BinOp(x)
        },
        Op::WideDiv(mut x) => {
            x.high = f(x.high);
            x.low = f(x.low);
            x.divisor = f(x.divisor);
            Op::WideDiv(x)
        },
        Op::Compare(mut x) => {
            x.lhs = f(x.lhs);
            x.rhs = f(x.rhs);
            Op::Compare(x)
        },
        Op::Select(mut x) => {
            x.true_value = f(x.true_value);
            x.false_value = f(x.false_value);
            Op::Select(x)
        },
        Op::LoadMem(mut x) => {
            x.addr = f(x.addr);
            Op::LoadMem(x)
        },
        other => other,
    }
}

#[verifier::spinoff_prover]
#[verifier::rlimit(40)]
fn map_op_refs_1<F: Fn(Ref) -> Ref>(op: Op, f: &F) -> (r: Op)
    requires
        forall|v: Ref| f.requires((v,)),
        matches!(op, Op::StoreMem(_) | Op::LoadMemTSO(_) | Op::StoreMemTSO(_) | Op::AtomicCmpxchg(_) | Op::AtomicXchg(_) | Op::AtomicXadd(_)),
    ensures
        op_skeleton(r) == op_skeleton(op),
        op_refs_related(op, r, |a: Ref, b: Ref| f.ensures((a,), b)),
        (forall|v: Ref, w: Ref| f.ensures((v,), w) ==> w == v) ==> r == op,
{
    match op {
        Op::StoreMem(mut x) => {
            x.addr = f(x.addr);
            x.value = f(x.value);
            Op::StoreMem(x)
        },
        Op::LoadMemTSO(mut x) => {
            x.addr = f(x.addr);
            Op::LoadMemTSO(x)
        },
        Op::StoreMemTSO(mut x) => {
            x.addr = f(x.addr);
            x.value = f(x.value);
            Op::StoreMemTSO(x)
        },
        Op::AtomicCmpxchg(mut x) => {
            x.addr = f(x.addr);
            x.expected = f(x.expected);
            x.new_value = f(x.new_value);
            Op::AtomicCmpxchg(x)
        },
        Op::AtomicXchg(mut x) => {
            x.addr = f(x.addr);
            x.value = f(x.value);
            Op::AtomicXchg(x)
        },
        Op::AtomicXadd(mut x) => {
            x.addr = f(x.addr);
            x.value = f(x.value);
            Op::AtomicXadd(x)
        },
        other => other,
    }
}

#[verifier::spinoff_prover]
#[verifier::rlimit(40)]
fn map_op_refs_2<F: Fn(Ref) -> Ref>(op: Op, f: &F) -> (r: Op)
    requires
        forall|v: Ref| f.requires((v,)),
        matches!(op, Op::AtomicCmpxchgPair(_) | Op::CondJump(_) | Op::CmpFlags(_) | Op::AluFlags(_) | Op::AluFlagsPreserveCarry(_) | Op::JumpReg(_)),
    ensures
        op_skeleton(r) == op_skeleton(op),
        op_refs_related(op, r, |a: Ref, b: Ref| f.ensures((a,), b)),
        (forall|v: Ref, w: Ref| f.ensures((v,), w) ==> w == v) ==> r == op,
{
    match op {
        Op::AtomicCmpxchgPair(mut x) => {
            x.addr = f(x.addr);
            x.expected_low = f(x.expected_low);
            x.expected_high = f(x.expected_high);
            x.new_low = f(x.new_low);
            x.new_high = f(x.new_high);
            x.old_high = f(x.old_high);
            Op::AtomicCmpxchgPair(x)
        },
        Op::CondJump(mut x) => {
            x.cond = f(x.cond);
            Op::CondJump(x)
        },
        Op::CmpFlags(mut x) => {
            x.lhs = f(x.lhs);
            x.rhs = f(x.rhs);
            Op::CmpFlags(x)
        },
        Op::AluFlags(mut x) => {
            x.lhs = f(x.lhs);
            x.rhs = f(x.rhs);
            Op::AluFlags(x)
        },
        Op::AluFlagsPreserveCarry(mut x) => {
            x.lhs = f(x.lhs);
            x.rhs = f(x.rhs);
            Op::AluFlagsPreserveCarry(x)
        },
        Op::JumpReg(mut x) => {
            x.target = f(x.target);
            Op::JumpReg(x)
        },
        other => other,
    }
}

#[verifier::spinoff_prover]
#[verifier::rlimit(40)]
fn map_op_refs_3<F: Fn(Ref) -> Ref>(op: Op, f: &F) -> (r: Op)
    requires
        forall|v: Ref| f.requires((v,)),
        matches!(op, Op::CallReg(_) | Op::TrapIf(_) | Op::Extend(_) | Op::Truncate(_) | Op::FpBinOp(_) | Op::WriteFlags(_)),
    ensures
        op_skeleton(r) == op_skeleton(op),
        op_refs_related(op, r, |a: Ref, b: Ref| f.ensures((a,), b)),
        (forall|v: Ref, w: Ref| f.ensures((v,), w) ==> w == v) ==> r == op,
{
    match op {
        Op::CallReg(mut x) => {
            x.target = f(x.target);
            Op::CallReg(x)
        },
        Op::TrapIf(mut x) => {
            x.condition = f(x.condition);
            Op::TrapIf(x)
        },
        Op::Extend(mut x) => {
            x.value = f(x.value);
            Op::Extend(x)
        },
        Op::Truncate(mut x) => {
            x.value = f(x.value);
            Op::Truncate(x)
        },
        Op::FpBinOp(mut x) => {
            x.lhs = f(x.lhs);
            x.rhs = f(x.rhs);
            Op::FpBinOp(x)
        },
        Op::WriteFlags(mut x) => {
            x.lhs = f(x.lhs);
            x.rhs = f(x.rhs);
            Op::WriteFlags(x)
        },
        other => other,
    }
}

#[verifier::spinoff_prover]
#[verifier::rlimit(40)]
fn map_op_refs_4<F: Fn(Ref) -> Ref>(op: Op, f: &F) -> (r: Op)
    requires
        forall|v: Ref| f.requires((v,)),
        matches!(op, Op::ReadFlag(_) | Op::CondJumpFlags(_) | Op::VecBinOp(_) | Op::VecClMul(_) | Op::VecF16Cvt(_) | Op::StoreVecReg(_)),
    ensures
        op_skeleton(r) == op_skeleton(op),
        op_refs_related(op, r, |a: Ref, b: Ref| f.ensures((a,), b)),
        (forall|v: Ref, w: Ref| f.ensures((v,), w) ==> w == v) ==> r == op,
{
    match op {
        Op::ReadFlag(mut x) => {
            x.flags = f(x.flags);
            Op::ReadFlag(x)
        },
        Op::CondJumpFlags(mut x) => {
            x.flags = f(x.flags);
            Op::CondJumpFlags(x)
        },
        Op::VecBinOp(mut x) => {
            x.lhs = f(x.lhs);
            x.rhs = f(x.rhs);
            Op::VecBinOp(x)
        },
        Op::VecClMul(mut x) => {
            x.lhs = f(x.lhs);
            x.rhs = f(x.rhs);
            Op::VecClMul(x)
        },
        Op::VecF16Cvt(mut x) => {
            x.src = f(x.src);
            Op::VecF16Cvt(x)
        },
        Op::StoreVecReg(mut x) => {
            x.value = f(x.value);
            Op::StoreVecReg(x)
        },
        other => other,
    }
}

#[verifier::spinoff_prover]
#[verifier::rlimit(40)]
fn map_op_refs_5<F: Fn(Ref) -> Ref>(op: Op, f: &F) -> (r: Op)
    requires
        forall|v: Ref| f.requires((v,)),
        matches!(op, Op::LoadVec(_) | Op::StoreVec(_) | Op::VecFpBinOp(_) | Op::VecFpScalarBinOp(_) | Op::XmmFromGpr(_) | Op::GprFromXmm(_)),
    ensures
        op_skeleton(r) == op_skeleton(op),
        op_refs_related(op, r, |a: Ref, b: Ref| f.ensures((a,), b)),
        (forall|v: Ref, w: Ref| f.ensures((v,), w) ==> w == v) ==> r == op,
{
    match op {
        Op::LoadVec(mut x) => {
            x.addr = f(x.addr);
            Op::LoadVec(x)
        },
        Op::StoreVec(mut x) => {
            x.addr = f(x.addr);
            x.value = f(x.value);
            Op::StoreVec(x)
        },
        Op::VecFpBinOp(mut x) => {
            x.lhs = f(x.lhs);
            x.rhs = f(x.rhs);
            Op::VecFpBinOp(x)
        },
        Op::VecFpScalarBinOp(mut x) => {
            x.lhs = f(x.lhs);
            x.rhs = f(x.rhs);
            Op::VecFpScalarBinOp(x)
        },
        Op::XmmFromGpr(mut x) => {
            x.value = f(x.value);
            Op::XmmFromGpr(x)
        },
        Op::GprFromXmm(mut x) => {
            x.value = f(x.value);
            Op::GprFromXmm(x)
        },
        other => other,
    }
}

#[verifier::spinoff_prover]
#[verifier::rlimit(40)]
fn map_op_refs_6<F: Fn(Ref) -> Ref>(op: Op, f: &F) -> (r: Op)
    requires
        forall|v: Ref| f.requires((v,)),
        matches!(op, Op::VecCmp(_) | Op::PcmpStrIndex(_) | Op::PcmpStrMask(_) | Op::PcmpStrFlags(_) | Op::VecShuffle32x4(_) | Op::VecUnpack(_)),
    ensures
        op_skeleton(r) == op_skeleton(op),
        op_refs_related(op, r, |a: Ref, b: Ref| f.ensures((a,), b)),
        (forall|v: Ref, w: Ref| f.ensures((v,), w) ==> w == v) ==> r == op,
{
    match op {
        Op::VecCmp(mut x) => {
            x.lhs = f(x.lhs);
            x.rhs = f(x.rhs);
            Op::VecCmp(x)
        },
        Op::PcmpStrIndex(mut x) => {
            x.lhs = f(x.lhs);
            x.rhs = f(x.rhs);
            if let Some(v) = x.lhs_len {
                x.lhs_len = Some(f(v));
            }
            if let Some(v) = x.rhs_len {
                x.rhs_len = Some(f(v));
            }
            Op::PcmpStrIndex(x)
        },
        Op::PcmpStrMask(mut x) => {
            x.lhs = f(x.lhs);
            x.rhs = f(x.rhs);
            if let Some(v) = x.lhs_len {
                x.lhs_len = Some(f(v));
            }
            if let Some(v) = x.rhs_len {
                x.rhs_len = Some(f(v));
            }
            Op::PcmpStrMask(x)
        },
        Op::PcmpStrFlags(mut x) => {
            x.lhs = f(x.lhs);
            x.rhs = f(x.rhs);
            if let Some(v) = x.lhs_len {
                x.lhs_len = Some(f(v));
            }
            if let Some(v) = x.rhs_len {
                x.rhs_len = Some(f(v));
            }
            Op::PcmpStrFlags(x)
        },
        Op::VecShuffle32x4(mut x) => {
            x.src = f(x.src);
            Op::VecShuffle32x4(x)
        },
        Op::VecUnpack(mut x) => {
            x.lhs = f(x.lhs);
            x.rhs = f(x.rhs);
            Op::VecUnpack(x)
        },
        other => other,
    }
}

#[verifier::spinoff_prover]
#[verifier::rlimit(40)]
fn map_op_refs_7<F: Fn(Ref) -> Ref>(op: Op, f: &F) -> (r: Op)
    requires
        forall|v: Ref| f.requires((v,)),
        matches!(op, Op::VecShiftImm(_) | Op::VecShiftBytes(_) | Op::IntToFpScalar(_) | Op::FpToIntScalar(_) | Op::FpCvtScalar(_) | Op::VecShuffle2Src(_)),
    ensures
        op_skeleton(r) == op_skeleton(op),
        op_refs_related(op, r, |a: Ref, b: Ref| f.ensures((a,), b)),
        (forall|v: Ref, w: Ref| f.ensures((v,), w) ==> w == v) ==> r == op,
{
    match op {
        Op::VecShiftImm(mut x) => {
            x.src = f(x.src);
            Op::VecShiftImm(x)
        },
        Op::VecShiftBytes(mut x) => {
            x.src = f(x.src);
            Op::VecShiftBytes(x)
        },
        Op::IntToFpScalar(mut x) => {
            x.value = f(x.value);
            Op::IntToFpScalar(x)
        },
        Op::FpToIntScalar(mut x) => {
            x.value = f(x.value);
            Op::FpToIntScalar(x)
        },
        Op::FpCvtScalar(mut x) => {
            x.lhs = f(x.lhs);
            x.src = f(x.src);
            Op::FpCvtScalar(x)
        },
        Op::VecShuffle2Src(mut x) => {
            x.lhs = f(x.lhs);
            x.rhs = f(x.rhs);
            Op::VecShuffle2Src(x)
        },
        other => other,
    }
}

#[verifier::spinoff_prover]
#[verifier::rlimit(40)]
fn map_op_refs_8<F: Fn(Ref) -> Ref>(op: Op, f: &F) -> (r: Op)
    requires
        forall|v: Ref| f.requires((v,)),
        matches!(op, Op::VecInsertLane(_) | Op::VecExtractLaneU(_) | Op::VecMaskMsb(_) | Op::WriteFlagsFp(_) | Op::VecShuffleH4(_) | Op::VecMaskFp(_)),
    ensures
        op_skeleton(r) == op_skeleton(op),
        op_refs_related(op, r, |a: Ref, b: Ref| f.ensures((a,), b)),
        (forall|v: Ref, w: Ref| f.ensures((v,), w) ==> w == v) ==> r == op,
{
    match op {
        Op::VecInsertLane(mut x) => {
            x.lhs_xmm = f(x.lhs_xmm);
            x.value = f(x.value);
            Op::VecInsertLane(x)
        },
        Op::VecExtractLaneU(mut x) => {
            x.src_xmm = f(x.src_xmm);
            Op::VecExtractLaneU(x)
        },
        Op::VecMaskMsb(mut x) => {
            x.src_xmm = f(x.src_xmm);
            Op::VecMaskMsb(x)
        },
        Op::WriteFlagsFp(mut x) => {
            x.lhs = f(x.lhs);
            x.rhs = f(x.rhs);
            Op::WriteFlagsFp(x)
        },
        Op::VecShuffleH4(mut x) => {
            x.src = f(x.src);
            Op::VecShuffleH4(x)
        },
        Op::VecMaskFp(mut x) => {
            x.src_xmm = f(x.src_xmm);
            Op::VecMaskFp(x)
        },
        other => other,
    }
}

#[verifier::spinoff_prover]
#[verifier::rlimit(40)]
fn map_op_refs_9<F: Fn(Ref) -> Ref>(op: Op, f: &F) -> (r: Op)
    requires
        forall|v: Ref| f.requires((v,)),
        matches!(op, Op::VecFpCompare(_) | Op::VecPshufb(_) | Op::VecAbs(_) | Op::VecAlignr(_) | Op::VecExtend(_) | Op::VecFpRound(_)),
    ensures
        op_skeleton(r) == op_skeleton(op),
        op_refs_related(op, r, |a: Ref, b: Ref| f.ensures((a,), b)),
        (forall|v: Ref, w: Ref| f.ensures((v,), w) ==> w == v) ==> r == op,
{
    match op {
        Op::VecFpCompare(mut x) => {
            x.lhs = f(x.lhs);
            x.rhs = f(x.rhs);
            Op::VecFpCompare(x)
        },
        Op::VecPshufb(mut x) => {
            x.src = f(x.src);
            x.mask = f(x.mask);
            Op::VecPshufb(x)
        },
        Op::VecAbs(mut x) => {
            x.src = f(x.src);
            Op::VecAbs(x)
        },
        Op::VecAlignr(mut x) => {
            x.lhs = f(x.lhs);
            x.rhs = f(x.rhs);
            Op::VecAlignr(x)
        },
        Op::VecExtend(mut x) => {
            x.src = f(x.src);
            Op::VecExtend(x)
        },
        Op::VecFpRound(mut x) => {
            x.lhs = f(x.lhs);
            x.src = f(x.src);
            Op::VecFpRound(x)
        },
        other => other,
    }
}

#[verifier::spinoff_prover]
#[verifier::rlimit(40)]
fn map_op_refs_10<F: Fn(Ref) -> Ref>(op: Op, f: &F) -> (r: Op)
    requires
        forall|v: Ref| f.requires((v,)),
        matches!(op, Op::Popcnt(_) | Op::Lzcnt(_) | Op::Tzcnt(_) | Op::WriteFlagsPopcnt(_) | Op::WriteFlagsCountZero(_) | Op::VecBlend(_)),
    ensures
        op_skeleton(r) == op_skeleton(op),
        op_refs_related(op, r, |a: Ref, b: Ref| f.ensures((a,), b)),
        (forall|v: Ref, w: Ref| f.ensures((v,), w) ==> w == v) ==> r == op,
{
    match op {
        Op::Popcnt(mut x) => {
            x.value = f(x.value);
            Op::Popcnt(x)
        },
        Op::Lzcnt(mut x) => {
            x.value = f(x.value);
            Op::Lzcnt(x)
        },
        Op::Tzcnt(mut x) => {
            x.value = f(x.value);
            Op::Tzcnt(x)
        },
        Op::WriteFlagsPopcnt(mut x) => {
            x.src = f(x.src);
            Op::WriteFlagsPopcnt(x)
        },
        Op::WriteFlagsCountZero(mut x) => {
            x.src = f(x.src);
            x.result = f(x.result);
            Op::WriteFlagsCountZero(x)
        },
        Op::VecBlend(mut x) => {
            x.dst = f(x.dst);
            x.src = f(x.src);
            x.mask = f(x.mask);
            Op::VecBlend(x)
        },
        other => other,
    }
}

#[verifier::spinoff_prover]
#[verifier::rlimit(40)]
fn map_op_refs_11<F: Fn(Ref) -> Ref>(op: Op, f: &F) -> (r: Op)
    requires
        forall|v: Ref| f.requires((v,)),
        matches!(op, Op::WriteFlagsPtest(_) | Op::WriteFlagsPtestYmm(_) | Op::VecTbl2(_) | Op::VecAes(_) | Op::VecAesKeygenAssist(_) | Op::VecSha(_)),
    ensures
        op_skeleton(r) == op_skeleton(op),
        op_refs_related(op, r, |a: Ref, b: Ref| f.ensures((a,), b)),
        (forall|v: Ref, w: Ref| f.ensures((v,), w) ==> w == v) ==> r == op,
{
    match op {
        Op::WriteFlagsPtest(mut x) => {
            x.lhs = f(x.lhs);
            x.rhs = f(x.rhs);
            Op::WriteFlagsPtest(x)
        },
        Op::WriteFlagsPtestYmm(mut x) => {
            x.lo_lhs = f(x.lo_lhs);
            x.lo_rhs = f(x.lo_rhs);
            x.hi_lhs = f(x.hi_lhs);
            x.hi_rhs = f(x.hi_rhs);
            Op::WriteFlagsPtestYmm(x)
        },
        Op::VecTbl2(mut x) => {
            x.src_lo = f(x.src_lo);
            x.src_hi = f(x.src_hi);
            x.idx = f(x.idx);
            Op::VecTbl2(x)
        },
        Op::VecAes(mut x) => {
            x.src = f(x.src);
            x.key = f(x.key);
            Op::VecAes(x)
        },
        Op::VecAesKeygenAssist(mut x) => {
            x.src = f(x.src);
            Op::VecAesKeygenAssist(x)
        },
        Op::VecSha(mut x) => {
            x.a = f(x.a);
            x.b = f(x.b);
            x.wk = f(x.wk);
            Op::VecSha(x)
        },
        other => other,
    }
}

#[verifier::spinoff_prover]
#[verifier::rlimit(40)]
fn map_op_refs_12<F: Fn(Ref) -> Ref>(op: Op, f: &F) -> (r: Op)
    requires
        forall|v: Ref| f.requires((v,)),
        matches!(op, Op::Bswap(_) | Op::Crc32c(_) | Op::VecGather(_) | Op::StoreVecRegHi(_) | Op::VecFpFma(_) | Op::VecFpScalarFma(_)),
    ensures
        op_skeleton(r) == op_skeleton(op),
        op_refs_related(op, r, |a: Ref, b: Ref| f.ensures((a,), b)),
        (forall|v: Ref, w: Ref| f.ensures((v,), w) ==> w == v) ==> r == op,
{
    match op {
        Op::Bswap(mut x) => {
            x.value = f(x.value);
            Op::Bswap(x)
        },
        Op::Crc32c(mut x) => {
            x.crc = f(x.crc);
            x.data = f(x.data);
            Op::Crc32c(x)
        },
        Op::VecGather(mut x) => {
            x.base = f(x.base);
            x.index = f(x.index);
            x.mask = f(x.mask);
            x.prev = f(x.prev);
            Op::VecGather(x)
        },
        Op::StoreVecRegHi(mut x) => {
            x.value = f(x.value);
            Op::StoreVecRegHi(x)
        },
        Op::VecFpFma(mut x) => {
            x.a = f(x.a);
            x.b = f(x.b);
            x.c = f(x.c);
            Op::VecFpFma(x)
        },
        Op::VecFpScalarFma(mut x) => {
            x.a = f(x.a);
            x.b = f(x.b);
            x.c = f(x.c);
            x.scalar_upper = f(x.scalar_upper);
            Op::VecFpScalarFma(x)
        },
        other => other,
    }
}

#[verifier::spinoff_prover]
#[verifier::rlimit(40)]
fn map_op_refs_13<F: Fn(Ref) -> Ref>(op: Op, f: &F) -> (r: Op)
    requires
        forall|v: Ref| f.requires((v,)),
        matches!(op, Op::X87Store(_) | Op::X87Push(_) | Op::ReadCarryOut(_) | Op::StoreCarry(_) | Op::StoreRflags(_) | Op::StoreRflagsFromNzcv(_)),
    ensures
        op_skeleton(r) == op_skeleton(op),
        op_refs_related(op, r, |a: Ref, b: Ref| f.ensures((a,), b)),
        (forall|v: Ref, w: Ref| f.ensures((v,), w) ==> w == v) ==> r == op,
{
    match op {
        Op::X87Store(mut x) => {
            x.value = f(x.value);
            Op::X87Store(x)
        },
        Op::X87Push(mut x) => {
            x.value = f(x.value);
            Op::X87Push(x)
        },
        Op::ReadCarryOut(mut x) => {
            x.flags = f(x.flags);
            Op::ReadCarryOut(x)
        },
        Op::StoreCarry(mut x) => {
            x.value = f(x.value);
            Op::StoreCarry(x)
        },
        Op::StoreRflags(mut x) => {
            x.value = f(x.value);
            Op::StoreRflags(x)
        },
        Op::StoreRflagsFromNzcv(mut x) => {
            if let Some(v) = x.pf {
                x.pf = Some(f(v));
            }
            if let Some(v) = x.af {
                x.af = Some(f(v));
            }
            Op::StoreRflagsFromNzcv(x)
        },
        other => other,
    }
}

#[verifier::spinoff_prover]
#[verifier::rlimit(40)]
fn map_op_refs_14<F: Fn(Ref) -> Ref>(op: Op, f: &F) -> (r: Op)
    requires
        forall|v: Ref| f.requires((v,)),
        matches!(op, Op::StoreRflagsFromBits(_)),
    ensures
        op_skeleton(r) == op_skeleton(op),
        op_refs_related(op, r, |a: Ref, b: Ref| f.ensures((a,), b)),
        (forall|v: Ref, w: Ref| f.ensures((v,), w) ==> w == v) ==> r == op,
{
    match op {
        Op::StoreRflagsFromBits(mut x) => {
            if let Some(v) = x.pf {
                x.pf = Some(f(v));
            }
            if let Some(v) = x.af {
                x.af = Some(f(v));
            }
            x.zf = f(x.zf);
            x.sf = f(x.sf);
            x.of = f(x.of);
            Op::StoreRflagsFromBits(x)
        },
        other => other,
    }
}

impl Stmt {
    #[must_use]
    pub fn new(result: Option<Ref>, op: Op) -> (s: Self)
        ensures
            s.result == result,
            s.op == op,
    {
        Self { result, op }
    }

    /// Every SSA ref this statement defines: `result`, plus `old_high` for the
    /// paired compare-exchange.
    pub open spec fn spec_defined_refs(self) -> Seq<Ref> {
        opt_ref_seq(self.result) + match self.op {
            Op::AtomicCmpxchgPair(pair) => seq![pair.old_high],
            _ => Seq::<Ref>::empty(),
        }
    }

    /// Return every SSA ref defined by this statement.
    ///
    /// Most operations define at most `result`; pair compare-exchange also
    /// defines the observed high half stored in `old_high`.
    pub fn defined_refs(&self) -> (r: Vec<Ref>)
        ensures
            r@ == self.spec_defined_refs(),
    {
        let mut out: Vec<Ref> = Vec::new();
        if let Some(r) = self.result {
            out.push(r);
        }
        if let Op::AtomicCmpxchgPair(pair) = &self.op {
            out.push(pair.old_high);
        }
        proof {
            assert(out@ =~= self.spec_defined_refs());
        }
        out
    }

    /// Apply `f` to every SSA value reference in this statement — its result
    /// (if any) and every operand ref inside the op. Block ids, guest
    /// addresses, register indices, and immediates are left untouched.
    pub fn map_refs<F: Fn(Ref) -> Ref>(&mut self, f: F)
        requires
            forall|v: Ref| f.requires((v,)),
        ensures
            final(self).result is Some <==> old(self).result is Some,
            old(self).result matches Some(r) ==> f.ensures((r,), final(self).result.unwrap()),
            op_skeleton(final(self).op) == op_skeleton(old(self).op),
            op_refs_related(old(self).op, final(self).op, |a: Ref, b: Ref| f.ensures((a,), b)),
            (forall|v: Ref, w: Ref| f.ensures((v,), w) ==> w == v) ==> *final(self) == *old(self),
    {
        if let Some(r) = self.result {
            self.result = Some(f(r));
        }
        self.op.map_refs(f);
    }
}

impl Op {
    /// Apply `f` to every SSA value reference stored in this op, including
    /// operands and secondary results. Used to renumber SSA refs when
    /// concatenating independently-decoded instructions into one basic block.
    pub fn map_refs<F: Fn(Ref) -> Ref>(&mut self, f: F)
        requires
            forall|v: Ref| f.requires((v,)),
        ensures
            op_skeleton(*final(self)) == op_skeleton(*old(self)),
            op_refs_related(*old(self), *final(self), |a: Ref, b: Ref| f.ensures((a,), b)),
            (forall|v: Ref, w: Ref| f.ensures((v,), w) ==> w == v) ==> *final(self) == *old(self),
    {
        let mut op = Op::X87Pop(X87Pop);
        std::mem::swap(&mut op, self);
        *self = map_op_refs(op, &f);
    }
}

/// A basic block.
#[derive(Debug, Clone, PartialEq)]
pub struct BasicBlock {
    pub id: u32,
    pub stmts: Vec<Stmt>,
}

/// An IR function (multiple basic blocks).
#[derive(Debug, Clone, PartialEq)]
pub struct Function {
    pub blocks: Vec<BasicBlock>,
    pub entry: u32,
}

/// Mask a 64-bit value to the width of `size`.
#[must_use]
pub fn mask_to_size(v: u64, size: OpSize) -> (r: u64)
    ensures
        r == v & size.spec_mask(),
{
    v & size.mask()
}

/// Number of XMM registers.
pub const XMM_COUNT: usize = 16;

/// Max bytes a single REP STOS/MOVS invocation may write (16 MiB).
pub const REP_MAX_BYTES_PER_CALL: u64 = 16_777_216;

} // verus!
