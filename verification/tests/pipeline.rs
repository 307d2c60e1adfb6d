use prisma::ir::{BasicBlock, BinOp, BinOpKind, Constant, Function, Gpr, Op, OpSize, Return, Stmt, StoreReg};
use prisma::passes::pipeline::{DEFAULT_PIPELINE_LEN, default_pipeline};

#[test]
fn pipeline_folds_constant_add_and_dce_keeps_store() {
    // r0=5; r1=3; r2=r0+r1; StoreReg rax, r2
    // -> const-prop folds r2 to 8, then DCE drops the now-dead r0/r1.
    let func = Function {
        entry: 0,
        blocks: vec![BasicBlock {
            id: 0,
            stmts: vec![
                Stmt::new(
                    Some(0),
                    Op::Constant(Constant {
                        value: 5,
                        size: OpSize::I64,
                    }),
                ),
                Stmt::new(
                    Some(1),
                    Op::Constant(Constant {
                        value: 3,
                        size: OpSize::I64,
                    }),
                ),
                Stmt::new(
                    Some(2),
                    Op::BinOp(BinOp {
                        op: BinOpKind::Add,
                        lhs: 0,
                        rhs: 1,
                        size: OpSize::I64,
                    }),
                ),
                Stmt::new(
                    None,
                    Op::StoreReg(StoreReg {
                        reg: Gpr::Rax,
                        value: 2,
                        size: OpSize::I64,
                    }),
                ),
                Stmt::new(None, Op::Return(Return)),
            ],
        }],
    };
    let out = default_pipeline().run(func);
    let stmts = &out.blocks[0].stmts;
    // r2 is now a folded constant 8, dead operands removed.
    let folded_8 = stmts
        .iter()
        .any(|s| s.result == Some(2) && matches!(&s.op, Op::Constant(c) if c.value == 8));
    assert!(folded_8, "expected r2 folded to 8: {stmts:?}");
    assert!(stmts.iter().any(|s| matches!(s.op, Op::StoreReg(_))));
    assert!(stmts.iter().any(|s| matches!(s.op, Op::Return(_))));
}

#[test]
fn run_with_stats_records_every_pass() {
    let func = Function {
        entry: 0,
        blocks: vec![BasicBlock {
            id: 0,
            stmts: vec![
                Stmt::new(
                    Some(0),
                    Op::Constant(Constant {
                        value: 5,
                        size: OpSize::I64,
                    }),
                ),
                Stmt::new(None, Op::Return(Return)),
            ],
        }],
    };
    let pipeline = default_pipeline();
    let (out_stats, stats) = pipeline.run_with_stats(func.clone());
    let out_plain = pipeline.run(func);
    // Same result whether or not stats are recorded.
    assert_eq!(out_stats, out_plain);
    // One timing entry per pass, names in pipeline order.
    assert_eq!(stats.pass_times.len(), DEFAULT_PIPELINE_LEN);
    let names: Vec<&str> = stats.pass_times.iter().map(|(n, _)| *n).collect();
    assert_eq!(names, pipeline.pass_names());
}

#[test]
fn pipeline_is_idempotent_on_fixed_point() {
    let func = Function {
        entry: 0,
        blocks: vec![BasicBlock {
            id: 0,
            stmts: vec![
                Stmt::new(
                    Some(0),
                    Op::Constant(Constant {
                        value: 5,
                        size: OpSize::I64,
                    }),
                ),
                Stmt::new(
                    None,
                    Op::StoreReg(StoreReg {
                        reg: Gpr::Rax,
                        value: 0,
                        size: OpSize::I64,
                    }),
                ),
                Stmt::new(None, Op::Return(Return)),
            ],
        }],
    };
    let once = default_pipeline().run(func);
    let twice = default_pipeline().run(once.clone());
    assert_eq!(once, twice);
}
