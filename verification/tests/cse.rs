use prisma::ir::{BasicBlock, BinOp, BinOpKind, CmpFlags, Constant, Function, Op, OpSize, Stmt};
use prisma::passes::cse::common_subexpression_eliminate;

fn binop(result: u32, op: BinOpKind, lhs: u32, rhs: u32) -> Stmt {
    Stmt::new(
        Some(result),
        Op::BinOp(BinOp {
            op,
            lhs,
            rhs,
            size: OpSize::I64,
        }),
    )
}

#[test]
fn repeated_binop_becomes_copy() {
    let func = Function {
        entry: 0,
        blocks: vec![BasicBlock {
            id: 0,
            stmts: vec![
                binop(2, BinOpKind::Add, 0, 1),
                binop(3, BinOpKind::Add, 0, 1), // identical -> copy of r2
            ],
        }],
    };
    let out = common_subexpression_eliminate(func);
    match &out.blocks[0].stmts[1].op {
        Op::BinOp(b) => {
            assert_eq!(b.op, BinOpKind::Or);
            assert_eq!(b.lhs, 2);
            assert_eq!(b.rhs, 2);
        }
        other => panic!("expected copy, got {other:?}"),
    }
}

#[test]
fn flushing_op_resets_table() {
    let func = Function {
        entry: 0,
        blocks: vec![BasicBlock {
            id: 0,
            stmts: vec![
                binop(2, BinOpKind::Add, 0, 1),
                Stmt::new(
                    None,
                    Op::CmpFlags(CmpFlags {
                        lhs: 0,
                        rhs: 1,
                        size: OpSize::I64,
                    }),
                ),
                binop(3, BinOpKind::Add, 0, 1), // NOT deduped after flush
            ],
        }],
    };
    let out = common_subexpression_eliminate(func.clone());
    assert_eq!(out, func);
}

#[test]
fn different_operands_not_deduped() {
    let func = Function {
        entry: 0,
        blocks: vec![BasicBlock {
            id: 0,
            stmts: vec![
                binop(2, BinOpKind::Add, 0, 1),
                binop(3, BinOpKind::Add, 0, 4),
            ],
        }],
    };
    let out = common_subexpression_eliminate(func.clone());
    assert_eq!(out, func);
}

#[test]
fn cse_idempotent() {
    let func = Function {
        entry: 0,
        blocks: vec![BasicBlock {
            id: 0,
            stmts: vec![
                Stmt::new(
                    Some(0),
                    Op::Constant(Constant {
                        value: 1,
                        size: OpSize::I64,
                    }),
                ),
                binop(2, BinOpKind::Add, 0, 0),
                binop(3, BinOpKind::Add, 0, 0),
            ],
        }],
    };
    let once = common_subexpression_eliminate(func);
    let twice = common_subexpression_eliminate(once.clone());
    assert_eq!(once, twice);
}
