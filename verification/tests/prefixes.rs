use prisma::ir::{OpSize, SegmentReg};
use prisma::decoder::prefixes::{PrefixSet, RexPrefix, operand_size, parse_prefixes};

#[test]
fn no_prefixes() {
    let (p, cursor) = parse_prefixes(b"\x90", 0);
    assert_eq!(cursor, 0);
    assert!(!p.operand_override);
    assert!(!p.rex.w);
}

#[test]
fn rex_w_prefix() {
    let (p, cursor) = parse_prefixes(b"\x48\x90", 0);
    assert_eq!(cursor, 1);
    assert!(p.rex.w);
    assert!(!p.rex.r);
    assert!(!p.rex.x);
    assert!(!p.rex.b);
}

#[test]
fn operand_size_override() {
    let (p, cursor) = parse_prefixes(b"\x66\x90", 0);
    assert_eq!(cursor, 1);
    assert!(p.operand_override);
}

#[test]
fn multiple_prefixes() {
    let (p, cursor) = parse_prefixes(b"\x66\x48\x90", 0);
    assert_eq!(cursor, 2);
    assert!(p.operand_override);
    assert!(p.rex.w);
}

#[test]
fn complex_prefix_set_tracks_last_rep_segment_overrides_and_rex() {
    let (p, cursor) = parse_prefixes(b"\xF2\xF3\x64\x66\x67\x4D\x90", 0);
    assert_eq!(cursor, 6);
    assert_eq!(p.rep, Some(0xF3));
    assert_eq!(p.segment, Some(SegmentReg::Fs));
    assert!(p.operand_override);
    assert!(p.addr_override);
    assert!(p.rex.w);
    assert!(p.rex.r);
    assert!(!p.rex.x);
    assert!(p.rex.b);
}

#[test]
fn lock_prefix() {
    let (p, cursor) = parse_prefixes(b"\xF0\x90", 0);
    assert_eq!(cursor, 1);
    assert!(p.lock);
}

#[test]
fn operand_size_64bit() {
    let p = PrefixSet {
        rex: RexPrefix {
            w: true,
            ..Default::default()
        },
        ..Default::default()
    };
    assert_eq!(operand_size(&p, true), OpSize::I64);
}

#[test]
fn operand_size_16bit() {
    let p = PrefixSet {
        operand_override: true,
        ..Default::default()
    };
    assert_eq!(operand_size(&p, true), OpSize::I16);
}

#[test]
fn operand_size_default_32() {
    let p = PrefixSet::default();
    assert_eq!(operand_size(&p, true), OpSize::I32);
}

#[test]
fn prefix_scan_stops_on_the_first_non_prefix_byte() {
    let bytes = [0x90, 0x66, 0x48, 0x89, 0xC8];
    let (p, c) = parse_prefixes(&bytes, 1);
    assert_eq!(c, 3);
    assert!(p.operand_override);
    assert!(p.rex.w);
    let (p0, c0) = parse_prefixes(&bytes, 0);
    assert_eq!(c0, 0);
    assert_eq!(p0, PrefixSet::default());
    let (_, c_end) = parse_prefixes(&bytes, 7);
    assert_eq!(c_end, 7);
}
