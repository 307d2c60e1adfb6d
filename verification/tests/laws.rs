use std::cell::RefCell;

use prisma::decoder::{decode_one, decode_one_at};
use prisma::ir::{BasicBlock, BinOp, BinOpKind, Compare, CondCode, CondJump, Constant, Function, Gpr, Jump, Op, OpSize, Return, Stmt, StoreMem, StoreMemTSO, StoreReg};
use prisma::passes::algebraic::algebraic_simplify;
use prisma::passes::dce::dead_code_eliminate;
use prisma::passes::dead_store::dead_store_eliminate;
use prisma::passes::flag_write_elim::flag_write_elimination;
use prisma::passes::licm::loop_invariant_motion;
use prisma::passes::pipeline::{default_function_pipeline, default_pipeline};

fn refs_of(st: &Stmt) -> Vec<u32> {
    let seen = RefCell::new(Vec::new());
    let mut copy = st.clone();
    copy.map_refs(|r| {
        seen.borrow_mut().push(r);
        r
    });
    seen.into_inner()
}

#[test]
fn decoded_statements_are_numbered_and_read_earlier_results() {
    let encodings: Vec<&[u8]> = vec![
        b"\x48\x01\xC8",
        b"\x48\x83\x44\x88\x7F\x10",
        b"\x0F\x31",
        b"\xAC",
        b"\xA6",
        b"\x48\x0F\xB1\xD1",
        b"\xC8\x20\x00\x00",
        b"\xE2\xFE",
        b"\x48\x8D\x41\x08",
        b"\xF7\xE1",
    ];
    for bytes in encodings {
        let d = decode_one_at(bytes, 0, 0x1000).unwrap();
        for (i, st) in d.stmts.iter().enumerate() {
            if let Some(r) = st.result {
                assert_eq!(r as usize, i, "{bytes:?}");
            }
            for r in refs_of(st) {
                assert!((r as usize) <= i, "{bytes:?}");
                if Some(r) != st.result {
                    assert!((r as usize) < i, "{bytes:?}");
                    assert_eq!(d.stmts[r as usize].result, Some(r), "{bytes:?}");
                }
            }
        }
    }
}

#[test]
fn indirect_call_through_memory_loads_address_then_target() {
    let d = decode_one(b"\xFF\x10", 0).unwrap();
    assert_eq!(d.stmts[0].result, Some(0));
    assert_eq!(d.stmts[1].result, Some(1));
}

#[test]
fn decoded_length_covers_prefixes_and_opcode() {
    let d = decode_one(b"\x66\x66\x90", 0).unwrap();
    assert_eq!(d.bytes_consumed, 3);
    let d = decode_one(b"\xF3\x90", 0).unwrap();
    assert_eq!(d.bytes_consumed, 2);
    assert_eq!(decode_one(b"\x66\x66", 0), Err(prisma::decoder::DecodeError::Truncated));
}

fn block(stmts: Vec<Stmt>) -> Function {
    Function { entry: 0, blocks: vec![BasicBlock { id: 0, stmts }] }
}

#[test]
fn algebraic_twice_equals_once() {
    let f = block(vec![
        Stmt::new(Some(0), Op::Constant(Constant { value: 0, size: OpSize::I32 })),
        Stmt::new(Some(1), Op::BinOp(BinOp { op: BinOpKind::Mul, lhs: 5, rhs: 0, size: OpSize::I32 })),
        Stmt::new(Some(2), Op::BinOp(BinOp { op: BinOpKind::And, lhs: 1, rhs: 7, size: OpSize::I32 })),
    ]);
    let once = algebraic_simplify(f.clone());
    let twice = algebraic_simplify(once.clone());
    assert_eq!(once, twice);
    assert_eq!(once.blocks[0].stmts.len(), 3);
}

#[test]
fn side_effects_and_tso_stores_and_compares_survive() {
    let f = block(vec![
        Stmt::new(Some(0), Op::Constant(Constant { value: 1, size: OpSize::I64 })),
        Stmt::new(None, Op::StoreMemTSO(StoreMemTSO { addr: 0, value: 0, size: OpSize::I64 })),
        Stmt::new(None, Op::StoreMemTSO(StoreMemTSO { addr: 0, value: 0, size: OpSize::I64 })),
        Stmt::new(None, Op::StoreMem(StoreMem { addr: 0, value: 0, size: OpSize::I64 })),
        Stmt::new(Some(4), Op::Compare(Compare { cc: CondCode::Eq, lhs: 0, rhs: 0, size: OpSize::I64 })),
        Stmt::new(None, Op::StoreReg(StoreReg { reg: Gpr::Rax, value: 0, size: OpSize::I64 })),
        Stmt::new(None, Op::Return(Return)),
    ]);
    let ds = dead_store_eliminate(f.clone());
    assert_eq!(ds.blocks[0].stmts.iter().filter(|s| matches!(s.op, Op::StoreMemTSO(_))).count(), 2);
    let fw = flag_write_elimination(f.clone());
    assert!(fw.blocks[0].stmts.iter().any(|s| matches!(s.op, Op::Compare(_))));
    let dce = dead_code_eliminate(f);
    assert!(dce.blocks[0].stmts.iter().any(|s| matches!(s.op, Op::StoreReg(_))));
    assert!(dce.blocks[0].stmts.iter().any(|s| matches!(s.op, Op::Return(_))));
}

#[test]
fn licm_without_loops_keeps_every_statement() {
    let f = block(vec![
        Stmt::new(Some(0), Op::Constant(Constant { value: 1, size: OpSize::I64 })),
        Stmt::new(None, Op::Return(Return)),
    ]);
    assert_eq!(loop_invariant_motion(f.clone()), f);
}

#[test]
fn pipelines_report_their_passes_in_order() {
    let p = default_pipeline();
    assert_eq!(p.size(), 11);
    assert_eq!(p.pass_names()[2], "peephole");
    assert_eq!(default_function_pipeline().pass_names(), vec!["global_cse", "loop_invariant_motion"]);
}

#[test]
fn licm_moves_only_pure_statements() {
    // block 0: r0 = 3; r1 = 4; jump 1
    // block 1 (loop): store [r0] = r1; r3 = r0 + r1; cond r3 ? 1 : 2
    // block 2: ret
    let store = Stmt::new(None, Op::StoreMem(StoreMem { addr: 0, value: 1, size: OpSize::I64 }));
    let add = Stmt::new(Some(3), Op::BinOp(BinOp { op: BinOpKind::Add, lhs: 0, rhs: 1, size: OpSize::I64 }));
    let f = Function {
        entry: 0,
        blocks: vec![
            BasicBlock {
                id: 0,
                stmts: vec![
                    Stmt::new(Some(0), Op::Constant(Constant { value: 3, size: OpSize::I64 })),
                    Stmt::new(Some(1), Op::Constant(Constant { value: 4, size: OpSize::I64 })),
                    Stmt::new(None, Op::Jump(Jump { target_block: 1 })),
                ],
            },
            BasicBlock {
                id: 1,
                stmts: vec![
                    store.clone(),
                    add.clone(),
                    Stmt::new(None, Op::CondJump(CondJump { cond: 3, if_true: 1, if_false: 2 })),
                ],
            },
            BasicBlock { id: 2, stmts: vec![Stmt::new(None, Op::Return(Return))] },
        ],
    };
    let out = loop_invariant_motion(f);
    // The store stays in the loop; the invariant add moves to the preheader.
    assert_eq!(out.blocks[1].stmts[0], store);
    assert_eq!(out.blocks[1].stmts.len(), 2);
    assert_eq!(out.blocks[0].stmts.len(), 4);
    assert_eq!(out.blocks[0].stmts[2], add);
}

#[test]
fn dce_second_run_changes_nothing() {
    // r0 is used in the second block; r1 and r2 are dead, r2 reading r1.
    let cst = |r: u32, v: u64| Stmt::new(Some(r), Op::Constant(Constant { value: v, size: OpSize::I64 }));
    let f = Function {
        entry: 0,
        blocks: vec![
            BasicBlock {
                id: 0,
                stmts: vec![
                    cst(0, 7),
                    cst(1, 8),
                    Stmt::new(Some(2), Op::BinOp(BinOp { op: BinOpKind::Add, lhs: 1, rhs: 1, size: OpSize::I64 })),
                    Stmt::new(None, Op::Jump(Jump { target_block: 1 })),
                ],
            },
            BasicBlock {
                id: 1,
                stmts: vec![Stmt::new(None, Op::StoreReg(StoreReg { reg: Gpr::Rax, value: 0, size: OpSize::I64 }))],
            },
        ],
    };
    let once = dead_code_eliminate(f);
    assert_eq!(once.blocks[0].stmts.len(), 2);
    let twice = dead_code_eliminate(once.clone());
    assert_eq!(once, twice);
}

#[test]
fn decoding_depends_only_on_the_bytes_from_the_offset() {
    let tails: Vec<&[u8]> = vec![b"\x48\x01\xC8", b"\xFF\x10", b"\x66\x66", b"\x0F\x1F\x80", b"\xE8\x10\x00\x00\x00"];
    for tail in tails {
        let mut bytes = vec![0x90u8, 0xCC, 0x48];
        bytes.extend_from_slice(tail);
        assert_eq!(decode_one_at(&bytes, 3, 0x4000), decode_one_at(tail, 0, 0x4000), "{tail:?}");
    }
}
