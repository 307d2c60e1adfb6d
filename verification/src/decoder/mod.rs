//! x86-64 to IR decoder.

use vstd::prelude::*;

pub mod alu;
pub mod bits;
pub mod decode;
pub mod emit;
pub mod flow;
pub mod groups;
pub mod modrm;
pub mod moves;
pub mod prefixes;
pub mod strings;
pub mod system;
pub mod tables;

verus! {

/// Errors that can occur during decoding.
#[derive(Debug, Clone, PartialEq, Eq, Structural)]
pub enum DecodeError {
    /// insufficient bytes
    Truncated,
    /// unsupported opcode
    UnsupportedOpcode(u8),
    /// invalid ModR/M at a byte offset
    InvalidModRm(usize),
    /// invalid SIB at a byte offset
    InvalidSib(usize),
    /// lock prefix not allowed on this opcode
    InvalidLock,
    /// invalid VEX encoding
    InvalidVex,
}

} // verus!

pub use decode::{decode_one, decode_one_at, Decoded};
