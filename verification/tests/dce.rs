use prisma::ir::{BasicBlock, BinOp, BinOpKind, Constant, Function, Gpr, Op, OpSize, Return, Stmt, StoreReg};
use prisma::passes::dce::dead_code_eliminate;

#[test]
fn dead_constant_is_dropped() {
    let func = Function {
        entry: 0,
        blocks: vec![BasicBlock {
            id: 0,
            stmts: vec![
                Stmt::new(
                    Some(0),
                    Op::Constant(Constant {
                        value: 7,
                        size: OpSize::I64,
                    }),
                ),
                Stmt::new(None, Op::Return(Return)),
            ],
        }],
    };
    let out = dead_code_eliminate(func);
    // The unused constant is removed; only Return remains.
    assert_eq!(out.blocks[0].stmts.len(), 1);
    assert!(matches!(out.blocks[0].stmts[0].op, Op::Return(_)));
}

#[test]
fn live_chain_is_kept() {
    // r0 = const; r1 = r0+r0; StoreReg rax, r1  (r1, r0 live)
    let func = Function {
        entry: 0,
        blocks: vec![BasicBlock {
            id: 0,
            stmts: vec![
                Stmt::new(
                    Some(0),
                    Op::Constant(Constant {
                        value: 7,
                        size: OpSize::I64,
                    }),
                ),
                Stmt::new(
                    Some(1),
                    Op::BinOp(BinOp {
                        op: BinOpKind::Add,
                        lhs: 0,
                        rhs: 0,
                        size: OpSize::I64,
                    }),
                ),
                Stmt::new(
                    None,
                    Op::StoreReg(StoreReg {
                        reg: Gpr::Rax,
                        value: 1,
                        size: OpSize::I64,
                    }),
                ),
            ],
        }],
    };
    let out = dead_code_eliminate(func.clone());
    assert_eq!(out, func);
}

#[test]
fn partially_dead_is_pruned() {
    // r0 used by store; r1 dead.
    let func = Function {
        entry: 0,
        blocks: vec![BasicBlock {
            id: 0,
            stmts: vec![
                Stmt::new(
                    Some(0),
                    Op::Constant(Constant {
                        value: 1,
                        size: OpSize::I64,
                    }),
                ),
                Stmt::new(
                    Some(1),
                    Op::Constant(Constant {
                        value: 2,
                        size: OpSize::I64,
                    }),
                ),
                Stmt::new(
                    None,
                    Op::StoreReg(StoreReg {
                        reg: Gpr::Rax,
                        value: 0,
                        size: OpSize::I64,
                    }),
                ),
            ],
        }],
    };
    let out = dead_code_eliminate(func);
    assert_eq!(out.blocks[0].stmts.len(), 2);
    // r1 constant dropped, r0 + store kept.
    assert!(matches!(out.blocks[0].stmts[1].op, Op::StoreReg(_)));
}

#[test]
fn dce_idempotent() {
    let func = Function {
        entry: 0,
        blocks: vec![BasicBlock {
            id: 0,
            stmts: vec![
                Stmt::new(
                    Some(0),
                    Op::Constant(Constant {
                        value: 1,
                        size: OpSize::I64,
                    }),
                ),
                Stmt::new(
                    Some(1),
                    Op::Constant(Constant {
                        value: 2,
                        size: OpSize::I64,
                    }),
                ),
                Stmt::new(
                    None,
                    Op::StoreReg(StoreReg {
                        reg: Gpr::Rax,
                        value: 0,
                        size: OpSize::I64,
                    }),
                ),
            ],
        }],
    };
    let once = dead_code_eliminate(func);
    let twice = dead_code_eliminate(once.clone());
    assert_eq!(once, twice);
}

#[test]
fn cross_block_use_keeps_def() {
    // r0 defined (pure) in block 0, used by a StoreReg in block 1.
    // A per-block liveness sweep would wrongly drop r0; the global
    // sweep must keep it (regression for the Codex BLOCKER).
    let func = Function {
        entry: 0,
        blocks: vec![
            BasicBlock {
                id: 0,
                stmts: vec![Stmt::new(
                    Some(0),
                    Op::Constant(Constant {
                        value: 7,
                        size: OpSize::I64,
                    }),
                )],
            },
            BasicBlock {
                id: 1,
                stmts: vec![Stmt::new(
                    None,
                    Op::StoreReg(StoreReg {
                        reg: Gpr::Rax,
                        value: 0,
                        size: OpSize::I64,
                    }),
                )],
            },
        ],
    };
    let out = dead_code_eliminate(func.clone());
    assert_eq!(out, func, "cross-block live def must not be dropped");
}
