use prisma::ir::{BasicBlock, BinOp, BinOpKind, CondJump, Constant, Function, Jump, Op, OpSize, Return, Stmt};
use prisma::passes::licm::loop_invariant_motion;

#[test]
fn no_loops_is_noop() {
    let f = Function {
        entry: 0,
        blocks: vec![BasicBlock {
            id: 0,
            stmts: vec![Stmt::new(None, Op::Return(Return))],
        }],
    };
    assert_eq!(loop_invariant_motion(f.clone()), f);
}

#[test]
fn hoists_invariant_binop_to_preheader() {
    // block0 (preheader): r0=const; r1=const; jump 1
    // block1 (loop header): r2 = add r0,r1 (invariant); cond 1/2
    // block2: ret
    // r2 should hoist into block0 before its terminator.
    let f = Function {
        entry: 0,
        blocks: vec![
            BasicBlock {
                id: 0,
                stmts: vec![
                    Stmt::new(
                        Some(0),
                        Op::Constant(Constant {
                            value: 3,
                            size: OpSize::I64,
                        }),
                    ),
                    Stmt::new(
                        Some(1),
                        Op::Constant(Constant {
                            value: 4,
                            size: OpSize::I64,
                        }),
                    ),
                    Stmt::new(None, Op::Jump(Jump { target_block: 1 })),
                ],
            },
            BasicBlock {
                id: 1,
                stmts: vec![
                    Stmt::new(
                        Some(2),
                        Op::BinOp(BinOp {
                            op: BinOpKind::Add,
                            lhs: 0,
                            rhs: 1,
                            size: OpSize::I64,
                        }),
                    ),
                    Stmt::new(
                        None,
                        Op::CondJump(CondJump {
                            cond: 2,
                            if_true: 1,
                            if_false: 2,
                        }),
                    ),
                ],
            },
            BasicBlock {
                id: 2,
                stmts: vec![Stmt::new(None, Op::Return(Return))],
            },
        ],
    };
    let out = loop_invariant_motion(f);
    // block0 now holds the hoisted add before its Jump terminator.
    let ph = &out.blocks[0].stmts;
    assert_eq!(ph.len(), 4);
    assert!(
        matches!(ph[2].op, Op::BinOp(_)),
        "add hoisted into preheader"
    );
    assert!(matches!(ph[3].op, Op::Jump(_)), "terminator stays last");
    // The loop header no longer contains the add (only its terminator).
    assert_eq!(out.blocks[1].stmts.len(), 1);
    assert!(matches!(out.blocks[1].stmts[0].op, Op::CondJump(_)));
}

#[test]
fn variant_binop_is_not_hoisted() {
    // r2 depends on r2 (loop-carried via self) — not invariant.
    let f = Function {
        entry: 0,
        blocks: vec![
            BasicBlock {
                id: 0,
                stmts: vec![Stmt::new(None, Op::Jump(Jump { target_block: 1 }))],
            },
            BasicBlock {
                id: 1,
                stmts: vec![
                    Stmt::new(
                        Some(2),
                        Op::BinOp(BinOp {
                            op: BinOpKind::Add,
                            lhs: 2,
                            rhs: 2,
                            size: OpSize::I64,
                        }),
                    ),
                    Stmt::new(
                        None,
                        Op::CondJump(CondJump {
                            cond: 2,
                            if_true: 1,
                            if_false: 2,
                        }),
                    ),
                ],
            },
            BasicBlock {
                id: 2,
                stmts: vec![Stmt::new(None, Op::Return(Return))],
            },
        ],
    };
    let out = loop_invariant_motion(f.clone());
    assert_eq!(out, f, "loop-carried value must not be hoisted");
}

#[test]
fn dependent_invariants_are_hoisted_to_a_fixed_point() {
    // block1 (loop): r3 = add r2,r2 comes before r2 = const, which it reads;
    // once r2 = const leaves the loop, r3 can leave too.
    let add = |res: u32, a: u32| {
        Stmt::new(Some(res), Op::BinOp(BinOp { op: BinOpKind::Add, lhs: a, rhs: a, size: OpSize::I64 }))
    };
    let f = Function {
        entry: 0,
        blocks: vec![
            BasicBlock { id: 0, stmts: vec![Stmt::new(None, Op::Jump(Jump { target_block: 1 }))] },
            BasicBlock {
                id: 1,
                stmts: vec![
                    add(3, 2),
                    Stmt::new(Some(2), Op::Constant(Constant { value: 5, size: OpSize::I64 })),
                    Stmt::new(None, Op::CondJump(CondJump { cond: 3, if_true: 1, if_false: 2 })),
                ],
            },
            BasicBlock { id: 2, stmts: vec![Stmt::new(None, Op::Return(Return))] },
        ],
    };
    let out = loop_invariant_motion(f);
    assert_eq!(out.blocks[1].stmts.len(), 1);
    assert_eq!(out.blocks[0].stmts.len(), 3);
    assert!(matches!(out.blocks[0].stmts[0].op, Op::Constant(_)));
    assert!(matches!(out.blocks[0].stmts[1].op, Op::BinOp(_)));
}

#[test]
fn hoisting_keeps_the_preheader_prefix_and_leaves_other_blocks_alone() {
    let konst = |r: u32, v: u64| Stmt::new(Some(r), Op::Constant(Constant { value: v, size: OpSize::I64 }));
    let add = |r: u32, a: u32, b: u32| {
        Stmt::new(Some(r), Op::BinOp(BinOp { op: BinOpKind::Add, lhs: a, rhs: b, size: OpSize::I64 }))
    };
    let f = Function {
        entry: 0,
        blocks: vec![
            BasicBlock {
                id: 0,
                stmts: vec![konst(0, 3), konst(1, 4), Stmt::new(None, Op::Jump(Jump { target_block: 1 }))],
            },
            BasicBlock {
                id: 1,
                stmts: vec![
                    add(2, 0, 1),
                    add(3, 2, 0),
                    Stmt::new(None, Op::CondJump(CondJump { cond: 3, if_true: 1, if_false: 2 })),
                ],
            },
            BasicBlock {
                id: 2,
                stmts: vec![konst(4, 7), Stmt::new(None, Op::Return(Return))],
            },
        ],
    };
    let out = loop_invariant_motion(f.clone());
    let ph = &out.blocks[0].stmts;
    assert_eq!(ph.len(), 5);
    assert_eq!(ph[0], f.blocks[0].stmts[0]);
    assert_eq!(ph[1], f.blocks[0].stmts[1]);
    assert_eq!(ph[2], f.blocks[1].stmts[0]);
    assert_eq!(ph[3], f.blocks[1].stmts[1]);
    assert_eq!(ph[4], f.blocks[0].stmts[2]);
    assert_eq!(out.blocks[1].stmts, vec![f.blocks[1].stmts[2].clone()]);
    assert_eq!(out.blocks[2], f.blocks[2]);
}
