use prisma::ir::{BasicBlock, BinOp, BinOpKind, Constant, Extend, Function, Lzcnt, Op, OpSize, Popcnt, Stmt, Truncate, Tzcnt};
use prisma::passes::const_prop::constant_propagate;

#[test]
fn fold_add() {
    let func = Function {
        entry: 0,
        blocks: vec![BasicBlock {
            id: 0,
            stmts: vec![
                Stmt::new(
                    Some(0),
                    Op::Constant(Constant {
                        value: 5,
                        size: OpSize::I64,
                    }),
                ),
                Stmt::new(
                    Some(1),
                    Op::Constant(Constant {
                        value: 3,
                        size: OpSize::I64,
                    }),
                ),
                Stmt::new(
                    Some(2),
                    Op::BinOp(BinOp {
                        op: BinOpKind::Add,
                        lhs: 0,
                        rhs: 1,
                        size: OpSize::I64,
                    }),
                ),
            ],
        }],
    };
    let out = constant_propagate(func);
    match &out.blocks[0].stmts[2].op {
        Op::Constant(c) => assert_eq!(c.value, 8),
        other => panic!("unexpected: {other:?}"),
    }
}

#[test]
fn fold_extend_then_truncate_chain() {
    let func = Function {
        entry: 0,
        blocks: vec![BasicBlock {
            id: 0,
            stmts: vec![
                Stmt::new(
                    Some(0),
                    Op::Constant(Constant {
                        value: 0xff,
                        size: OpSize::I8,
                    }),
                ),
                Stmt::new(
                    Some(1),
                    Op::Extend(Extend {
                        value: 0,
                        from_size: OpSize::I8,
                        to_size: OpSize::I64,
                        is_signed: true,
                    }),
                ),
                Stmt::new(
                    Some(2),
                    Op::Truncate(Truncate {
                        value: 1,
                        to_size: OpSize::I32,
                    }),
                ),
            ],
        }],
    };

    let out = constant_propagate(func);
    match &out.blocks[0].stmts[2].op {
        Op::Constant(c) => assert_eq!(c.value, 0xffff_ffff),
        other => panic!("unexpected: {other:?}"),
    }
}

#[test]
fn fold_bit_count_ops_with_size_masks() {
    let func = Function {
        entry: 0,
        blocks: vec![BasicBlock {
            id: 0,
            stmts: vec![
                Stmt::new(
                    Some(0),
                    Op::Constant(Constant {
                        value: 0x1ff,
                        size: OpSize::I16,
                    }),
                ),
                Stmt::new(
                    Some(1),
                    Op::Popcnt(Popcnt {
                        value: 0,
                        size: OpSize::I8,
                    }),
                ),
                Stmt::new(
                    Some(2),
                    Op::Lzcnt(Lzcnt {
                        value: 0,
                        size: OpSize::I16,
                    }),
                ),
                Stmt::new(
                    Some(3),
                    Op::Tzcnt(Tzcnt {
                        value: 0,
                        size: OpSize::I16,
                    }),
                ),
                Stmt::new(
                    Some(4),
                    Op::Constant(Constant {
                        value: 0,
                        size: OpSize::I32,
                    }),
                ),
                Stmt::new(
                    Some(5),
                    Op::Lzcnt(Lzcnt {
                        value: 4,
                        size: OpSize::I32,
                    }),
                ),
                Stmt::new(
                    Some(6),
                    Op::Tzcnt(Tzcnt {
                        value: 4,
                        size: OpSize::I32,
                    }),
                ),
            ],
        }],
    };

    let out = constant_propagate(func);
    let folded_constant = |idx: usize| match &out.blocks[0].stmts[idx].op {
        Op::Constant(c) => c.value,
        other => panic!("unexpected: {other:?}"),
    };

    assert_eq!(folded_constant(1), 8);
    assert_eq!(folded_constant(2), 7);
    assert_eq!(folded_constant(3), 0);
    assert_eq!(folded_constant(5), 32);
    assert_eq!(folded_constant(6), 32);
}

fn fold_pair(op: BinOpKind, a: u64, b: u64) -> u64 {
    let f = Function {
        entry: 0,
        blocks: vec![BasicBlock {
            id: 0,
            stmts: vec![
                Stmt::new(Some(0), Op::Constant(Constant { value: a, size: OpSize::I64 })),
                Stmt::new(Some(1), Op::Constant(Constant { value: b, size: OpSize::I64 })),
                Stmt::new(Some(2), Op::BinOp(BinOp { op, lhs: 0, rhs: 1, size: OpSize::I64 })),
            ],
        }],
    };
    let out = constant_propagate(f);
    match &out.blocks[0].stmts[2].op {
        Op::Constant(c) => c.value,
        other => panic!("expected a constant, got {other:?}"),
    }
}

#[test]
fn high_multiplies_are_signed_and_unsigned() {
    assert_eq!(fold_pair(BinOpKind::SMulHi, u64::MAX, 1), u64::MAX);
    assert_eq!(fold_pair(BinOpKind::SMulHi, u64::MAX, u64::MAX), 0);
    assert_eq!(fold_pair(BinOpKind::UMulHi, u64::MAX, u64::MAX), u64::MAX - 1);
    assert_eq!(fold_pair(BinOpKind::UMulHi, u64::MAX, 1), 0);
}
