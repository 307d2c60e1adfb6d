use prisma::ir::{BasicBlock, BinOp, BinOpKind, CondJump, Function, Jump, Op, OpSize, Stmt};
use prisma::passes::global_cse::global_cse;

fn binop(result: u32, lhs: u32, rhs: u32) -> Stmt {
    Stmt::new(
        Some(result),
        Op::BinOp(BinOp {
            op: BinOpKind::Add,
            lhs,
            rhs,
            size: OpSize::I64,
        }),
    )
}

#[test]
fn forwards_across_single_pred_idom_edge() {
    // block0: r2 = add r0,r1 ; jump 1
    // block1: r3 = add r0,r1  -> rewritten to Or r2,r2 (forwarded)
    let f = Function {
        entry: 0,
        blocks: vec![
            BasicBlock {
                id: 0,
                stmts: vec![
                    binop(2, 0, 1),
                    Stmt::new(None, Op::Jump(Jump { target_block: 1 })),
                ],
            },
            BasicBlock {
                id: 1,
                stmts: vec![binop(3, 0, 1)],
            },
        ],
    };
    let out = global_cse(f);
    match &out.blocks[1].stmts[0].op {
        Op::BinOp(b) => {
            assert_eq!(b.op, BinOpKind::Or);
            assert_eq!((b.lhs, b.rhs), (2, 2));
        }
        other => panic!("expected forwarded copy, got {other:?}"),
    }
}

#[test]
fn join_block_does_not_forward() {
    // 0 -> {1,2} -> 3. block3 has two preds, so no forwarding even if
    // both branches compute the same expr.
    let f = Function {
        entry: 0,
        blocks: vec![
            BasicBlock {
                id: 0,
                stmts: vec![
                    binop(2, 0, 1),
                    Stmt::new(
                        None,
                        Op::CondJump(CondJump {
                            cond: 2,
                            if_true: 1,
                            if_false: 2,
                        }),
                    ),
                ],
            },
            BasicBlock {
                id: 1,
                stmts: vec![Stmt::new(None, Op::Jump(Jump { target_block: 3 }))],
            },
            BasicBlock {
                id: 2,
                stmts: vec![Stmt::new(None, Op::Jump(Jump { target_block: 3 }))],
            },
            BasicBlock {
                id: 3,
                stmts: vec![binop(5, 0, 1)],
            },
        ],
    };
    let out = global_cse(f);
    // block3's add is NOT forwarded (join block starts empty).
    match &out.blocks[3].stmts[0].op {
        Op::BinOp(b) => assert_eq!(b.op, BinOpKind::Add),
        other => panic!("unexpected {other:?}"),
    }
}

#[test]
fn intra_block_dedup_still_works() {
    let f = Function {
        entry: 0,
        blocks: vec![BasicBlock {
            id: 0,
            stmts: vec![binop(2, 0, 1), binop(3, 0, 1)],
        }],
    };
    let out = global_cse(f);
    match &out.blocks[0].stmts[1].op {
        Op::BinOp(b) => assert_eq!((b.op, b.lhs, b.rhs), (BinOpKind::Or, 2, 2)),
        other => panic!("unexpected {other:?}"),
    }
}

#[test]
fn empty_function_unchanged() {
    let f = Function {
        entry: 0,
        blocks: vec![],
    };
    assert_eq!(global_cse(f.clone()), f);
}

#[test]
fn unreachable_block_keeps_its_statements() {
    // block0 jumps nowhere; block1 is never reached, so its repeated
    // expression is left as it is.
    let f = Function {
        entry: 0,
        blocks: vec![
            BasicBlock {
                id: 0,
                stmts: vec![binop(2, 0, 1)],
            },
            BasicBlock {
                id: 1,
                stmts: vec![binop(3, 0, 1), binop(4, 0, 1)],
            },
        ],
    };
    let out = global_cse(f.clone());
    assert_eq!(out.blocks[1], f.blocks[1]);
    assert_eq!(out.blocks[0], f.blocks[0]);
}
