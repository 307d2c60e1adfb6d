//! Legacy, REX and VEX prefix parsing.

use vstd::prelude::*;

use crate::ir::{OpSize, SegmentReg};

verus! {

/// Parsed x86 prefix bytes.
#[derive(Debug, Clone, PartialEq, Eq, Structural)]
pub struct PrefixSet {
    /// REP / REPE / REPNE (F3 / F2)
    pub rep: Option<u8>,
    /// Operand-size override (0x66)
    pub operand_override: bool,
    /// Address-size override (0x67)
    pub addr_override: bool,
    /// Lock prefix (0xF0)
    pub lock: bool,
    /// Segment override (0x26, 0x2E, 0x36, 0x3E, 0x64, 0x65)
    pub segment: Option<SegmentReg>,
    /// REX prefix (0x40-0x4F)
    pub rex: RexPrefix,
    /// VEX prefix (C4 or C5)
    pub vex: Option<VexPrefix>,
}

/// Parsed REX prefix byte.
#[derive(Debug, Clone, Copy, PartialEq, Eq, Structural)]
pub struct RexPrefix {
    /// True when any REX prefix byte is present.
    pub present: bool,
    /// 64-bit operand size
    pub w: bool,
    /// extends reg field
    pub r: bool,
    /// extends SIB index field
    pub x: bool,
    /// extends rm/base field
    pub b: bool,
}

/// Parsed VEX prefix (2-byte C5 or 3-byte C4).
#[derive(Debug, Clone, Copy, PartialEq, Eq, Structural)]
pub struct VexPrefix {
    /// implied 0x66/F3/F2 prefix
    pub p: u8,
    /// 256-bit (L=1)
    pub l: bool,
    /// dest/src register (inverted)
    pub vvvv: u8,
    /// 2-bit opcode extension
    pub pp: u8,
    /// 5-bit map select
    pub mmmm: u8,
}

/// No REX prefix.
pub open spec fn no_rex() -> RexPrefix {
    RexPrefix { present: false, w: false, r: false, x: false, b: false }
}

/// No prefix at all.
pub open spec fn no_prefixes() -> PrefixSet {
    PrefixSet {
        rep: None,
        operand_override: false,
        addr_override: false,
        lock: false,
        segment: None,
        rex: no_rex(),
        vex: None,
    }
}

impl Default for RexPrefix {
    fn default() -> (r: Self)
        ensures
            r == no_rex(),
    {
        RexPrefix { present: false, w: false, r: false, x: false, b: false }
    }
}

impl Default for PrefixSet {
    fn default() -> (p: Self)
        ensures
            p == no_prefixes(),
    {
        PrefixSet {
            rep: None,
            operand_override: false,
            addr_override: false,
            lock: false,
            segment: None,
            rex: RexPrefix { present: false, w: false, r: false, x: false, b: false },
            vex: None,
        }
    }
}

/// The REX prefix a byte in 0x40..=0x4F encodes.
pub open spec fn rex_of(b: u8) -> RexPrefix {
    RexPrefix { present: true, w: b & 0x08 != 0, r: b & 0x04 != 0, x: b & 0x02 != 0, b: b & 0x01 != 0 }
}

/// The segment an override byte selects, if it is one.
pub open spec fn segment_of(b: u8) -> Option<SegmentReg> {
    if b == 0x26 {
        Some(SegmentReg::Es)
    } else if b == 0x2E {
        Some(SegmentReg::Cs)
    } else if b == 0x36 {
        Some(SegmentReg::Ss)
    } else if b == 0x3E {
        Some(SegmentReg::Ds)
    } else if b == 0x64 {
        Some(SegmentReg::Fs)
    } else if b == 0x65 {
        Some(SegmentReg::Gs)
    } else {
        None
    }
}

/// Scanning prefixes from `cursor` with the prefixes `p` seen so far: the
/// final prefix set and the position of the first byte that is not a prefix
/// (or where a VEX prefix runs out of bytes).
pub open spec fn scan_prefixes(bytes: Seq<u8>, cursor: int, p: PrefixSet) -> (PrefixSet, int)
    decreases bytes.len() - cursor,
{
    if cursor < 0 || cursor >= bytes.len() {
        (p, cursor)
    } else {
        let b = bytes[cursor];
        if 0x40 <= b <= 0x4F {
            scan_prefixes(bytes, cursor + 1, PrefixSet { rex: rex_of(b), ..p })
        } else if b == 0xC5 {
            if cursor + 1 >= bytes.len() {
                (p, cursor + 1)
            } else {
                let b2 = bytes[cursor + 1];
                let v = VexPrefix { p: 0, l: b2 & 0x04 != 0, vvvv: (!b2 >> 3u8) & 0x0F, pp: b2 & 0x03, mmmm: 1 };
                scan_prefixes(bytes, cursor + 2, PrefixSet { vex: Some(v), ..p })
            }
        } else if b == 0xC4 {
            if cursor + 1 >= bytes.len() {
                (p, cursor + 1)
            } else if cursor + 2 >= bytes.len() {
                (p, cursor + 2)
            } else {
                let b2 = bytes[cursor + 1];
                let b3 = bytes[cursor + 2];
                let v = VexPrefix { p: b3 & 0x03, l: b3 & 0x04 != 0, vvvv: (!b2 >> 3u8) & 0x0F, pp: b3 & 0x03, mmmm: b2 & 0x1F };
                scan_prefixes(bytes, cursor + 3, PrefixSet { vex: Some(v), ..p })
            }
        } else if b == 0xF0 {
            scan_prefixes(bytes, cursor + 1, PrefixSet { lock: true, ..p })
        } else if b == 0xF2 || b == 0xF3 {
            scan_prefixes(bytes, cursor + 1, PrefixSet { rep: Some(b), ..p })
        } else if b == 0x66 {
            scan_prefixes(bytes, cursor + 1, PrefixSet { operand_override: true, ..p })
        } else if b == 0x67 {
            scan_prefixes(bytes, cursor + 1, PrefixSet { addr_override: true, ..p })
        } else if segment_of(b) is Some {
            scan_prefixes(bytes, cursor + 1, PrefixSet { segment: segment_of(b), ..p })
        } else {
            (p, cursor)
        }
    }
}

proof fn lemma_scan_bounds(bytes: Seq<u8>, cursor: int, p: PrefixSet)
    requires
        0 <= cursor,
    ensures
        cursor <= scan_prefixes(bytes, cursor, p).1,
        cursor <= bytes.len() ==> scan_prefixes(bytes, cursor, p).1 <= bytes.len(),
    decreases bytes.len() - cursor,
{
    if cursor < bytes.len() {
        let b = bytes[cursor];
        if 0x40 <= b <= 0x4F || b == 0xF0 || b == 0xF2 || b == 0xF3 || b == 0x66 || b == 0x67 || segment_of(b) is Some {
            let q = if 0x40 <= b <= 0x4F {
                PrefixSet { rex: rex_of(b), ..p }
            } else if b == 0xF0 {
                PrefixSet { lock: true, ..p }
            } else if b == 0xF2 || b == 0xF3 {
                PrefixSet { rep: Some(b), ..p }
            } else if b == 0x66 {
                PrefixSet { operand_override: true, ..p }
            } else if b == 0x67 {
                PrefixSet { addr_override: true, ..p }
            } else {
                PrefixSet { segment: segment_of(b), ..p }
            };
            lemma_scan_bounds(bytes, cursor + 1, q);
        } else if b == 0xC5 && cursor + 1 < bytes.len() {
            let b2 = bytes[cursor + 1];
            let v = VexPrefix { p: 0, l: b2 & 0x04 != 0, vvvv: (!b2 >> 3u8) & 0x0F, pp: b2 & 0x03, mmmm: 1 };
            lemma_scan_bounds(bytes, cursor + 2, PrefixSet { vex: Some(v), ..p });
        } else if b == 0xC4 && cursor + 2 < bytes.len() {
            let b2 = bytes[cursor + 1];
            let b3 = bytes[cursor + 2];
            let v = VexPrefix { p: b3 & 0x03, l: b3 & 0x04 != 0, vvvv: (!b2 >> 3u8) & 0x0F, pp: b3 & 0x03, mmmm: b2 & 0x1F };
            lemma_scan_bounds(bytes, cursor + 3, PrefixSet { vex: Some(v), ..p });
        }
    }
}

/// A byte that prefix scanning consumes as (the start of) a prefix.
pub open spec fn is_prefix_byte(b: u8) -> bool {
    ||| b == 0x26 || b == 0x2E || b == 0x36 || b == 0x3E
    ||| 0x40 <= b <= 0x4F
    ||| 0x64 <= b <= 0x67
    ||| b == 0xC4 || b == 0xC5 || b == 0xF0 || b == 0xF2 || b == 0xF3
}

proof fn lemma_scan_stops(bytes: Seq<u8>, cursor: int, p: PrefixSet)
    requires
        0 <= cursor,
    ensures
        scan_prefixes(bytes, cursor, p).1 < bytes.len() ==> !is_prefix_byte(bytes[scan_prefixes(bytes, cursor, p).1]),
        scan_prefixes(bytes, cursor, p).1 == cursor ==> scan_prefixes(bytes, cursor, p).0 == p,
    decreases bytes.len() - cursor,
{
    if cursor < bytes.len() {
        let b = bytes[cursor];
        lemma_scan_bounds(bytes, cursor, p);
        if 0x40 <= b <= 0x4F || b == 0xF0 || b == 0xF2 || b == 0xF3 || b == 0x66 || b == 0x67 || segment_of(b) is Some {
            let q = if 0x40 <= b <= 0x4F {
                PrefixSet { rex: rex_of(b), ..p }
            } else if b == 0xF0 {
                PrefixSet { lock: true, ..p }
            } else if b == 0xF2 || b == 0xF3 {
                PrefixSet { rep: Some(b), ..p }
            } else if b == 0x66 {
                PrefixSet { operand_override: true, ..p }
            } else if b == 0x67 {
                PrefixSet { addr_override: true, ..p }
            } else {
                PrefixSet { segment: segment_of(b), ..p }
            };
            lemma_scan_stops(bytes, cursor + 1, q);
            lemma_scan_bounds(bytes, cursor + 1, q);
        } else if b == 0xC5 && cursor + 1 < bytes.len() {
            let b2 = bytes[cursor + 1];
            let v = VexPrefix { p: 0, l: b2 & 0x04 != 0, vvvv: (!b2 >> 3u8) & 0x0F, pp: b2 & 0x03, mmmm: 1 };
            lemma_scan_stops(bytes, cursor + 2, PrefixSet { vex: Some(v), ..p });
            lemma_scan_bounds(bytes, cursor + 2, PrefixSet { vex: Some(v), ..p });
        } else if b == 0xC4 && cursor + 2 < bytes.len() {
            let b2 = bytes[cursor + 1];
            let b3 = bytes[cursor + 2];
            let v = VexPrefix { p: b3 & 0x03, l: b3 & 0x04 != 0, vvvv: (!b2 >> 3u8) & 0x0F, pp: b3 & 0x03, mmmm: b2 & 0x1F };
            lemma_scan_stops(bytes, cursor + 3, PrefixSet { vex: Some(v), ..p });
            lemma_scan_bounds(bytes, cursor + 3, PrefixSet { vex: Some(v), ..p });
        }
    }
}

/// Prefix scanning from `start` stops at or after `start` and never past the
/// end of the bytes (or `start`, if that is past it); where it stops inside
/// the bytes, the byte there is no prefix; and where it stops at once, no
/// prefix was seen.
pub proof fn lemma_prefix_scan_stops(bytes: Seq<u8>, start: int)
    requires
        0 <= start,
    ensures
        start <= scan_prefixes(bytes, start, no_prefixes()).1,
        scan_prefixes(bytes, start, no_prefixes()).1 <= (if start <= bytes.len() { bytes.len() as int } else { start }),
        scan_prefixes(bytes, start, no_prefixes()).1 < bytes.len()
            ==> !is_prefix_byte(bytes[scan_prefixes(bytes, start, no_prefixes()).1]),
        scan_prefixes(bytes, start, no_prefixes()).1 == start ==> scan_prefixes(bytes, start, no_prefixes()).0 == no_prefixes(),
{
    lemma_scan_bounds(bytes, start, no_prefixes());
    lemma_scan_stops(bytes, start, no_prefixes());
}

/// Parse prefix bytes before the opcode.
///
/// Returns the prefix set and the offset of the first non-prefix byte.
pub fn parse_prefixes(bytes: &[u8], start: usize) -> (r: (PrefixSet, usize))
    ensures
        (r.0, r.1 as int) == scan_prefixes(bytes@, start as int, no_prefixes()),
        start <= r.1,
        start <= bytes.len() ==> r.1 <= bytes.len(),
{
    let mut p = PrefixSet::default();
    let mut cursor = start;
    proof {
        lemma_scan_bounds(bytes@, start as int, no_prefixes());
    }
    loop
        invariant
            start <= cursor,
            scan_prefixes(bytes@, cursor as int, p) == scan_prefixes(bytes@, start as int, no_prefixes()),
            start <= bytes.len() ==> scan_prefixes(bytes@, start as int, no_prefixes()).1 <= bytes.len(),
        decreases bytes.len() - cursor,
    {
        if cursor >= bytes.len() {
            assert(scan_prefixes(bytes@, cursor as int, p) == (p, cursor as int));
            return (p, cursor);
        }
        let b = bytes[cursor];
        if 0x40 <= b && b <= 0x4F {
            p.rex = RexPrefix { present: true, w: b & 0x08 != 0, r: b & 0x04 != 0, x: b & 0x02 != 0, b: b & 0x01 != 0 };
            cursor = cursor + 1;
        } else if b == 0xC5 {
            if cursor + 1 >= bytes.len() {
                return (p, cursor + 1);
            }
            let b2 = bytes[cursor + 1];
            p.vex = Some(VexPrefix { p: 0, l: b2 & 0x04 != 0, vvvv: (!b2 >> 3u8) & 0x0F, pp: b2 & 0x03, mmmm: 1 });
            cursor = cursor + 2;
        } else if b == 0xC4 {
            if cursor + 1 >= bytes.len() {
                return (p, cursor + 1);
            }
            if cursor + 2 >= bytes.len() {
                return (p, cursor + 2);
            }
            let b2 = bytes[cursor + 1];
            let b3 = bytes[cursor + 2];
            p.vex = Some(VexPrefix { p: b3 & 0x03, l: b3 & 0x04 != 0, vvvv: (!b2 >> 3u8) & 0x0F, pp: b3 & 0x03, mmmm: b2 & 0x1F });
            cursor = cursor + 3;
        } else if b == 0xF0 {
            p.lock = true;
            cursor = cursor + 1;
        } else if b == 0xF2 || b == 0xF3 {
            p.rep = Some(b);
            cursor = cursor + 1;
        } else if b == 0x66 {
            p.operand_override = true;
            cursor = cursor + 1;
        } else if b == 0x67 {
            p.addr_override = true;
            cursor = cursor + 1;
        } else if b == 0x26 {
            p.segment = Some(SegmentReg::Es);
            cursor = cursor + 1;
        } else if b == 0x2E {
            p.segment = Some(SegmentReg::Cs);
            cursor = cursor + 1;
        } else if b == 0x36 {
            p.segment = Some(SegmentReg::Ss);
            cursor = cursor + 1;
        } else if b == 0x3E {
            p.segment = Some(SegmentReg::Ds);
            cursor = cursor + 1;
        } else if b == 0x64 {
            p.segment = Some(SegmentReg::Fs);
            cursor = cursor + 1;
        } else if b == 0x65 {
            p.segment = Some(SegmentReg::Gs);
            cursor = cursor + 1;
        } else {
            return (p, cursor);
        }
    }
}

/// No REX, lock, segment, repeat, operand-size or address-size prefix.
pub open spec fn no_legacy_or_rex(p: PrefixSet) -> bool {
    !p.rex.present && !p.lock && p.segment is None && p.rep is None && !p.operand_override && !p.addr_override
}

/// The operand size the prefixes select: REX.W gives 64 bits, else 0x66
/// gives 16, else 32.
pub open spec fn spec_operand_size(prefixes: PrefixSet) -> OpSize {
    if prefixes.rex.w {
        OpSize::I64
    } else if prefixes.operand_override {
        OpSize::I16
    } else {
        OpSize::I32
    }
}

/// Determine the operand size from prefixes and default size.
pub fn operand_size(prefixes: &PrefixSet, _default_64: bool) -> (r: OpSize)
    ensures
        r == spec_operand_size(*prefixes),
{
    if prefixes.rex.w {
        return OpSize::I64;
    }
    if prefixes.operand_override {
        return OpSize::I16;
    }
    OpSize::I32
}

} // verus!
