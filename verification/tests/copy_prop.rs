use prisma::ir::{BasicBlock, BinOp, BinOpKind, Constant, Function, JumpReg, Op, OpSize, Stmt, WideDiv, WideDivResult};
use prisma::passes::copy_prop::copy_propagate;

#[test]
fn propagates_self_binop_copy() {
    let func = Function {
        entry: 0,
        blocks: vec![BasicBlock {
            id: 0,
            stmts: vec![
                Stmt::new(
                    Some(0),
                    Op::Constant(Constant {
                        value: 4,
                        size: OpSize::I64,
                    }),
                ),
                Stmt::new(
                    Some(1),
                    Op::BinOp(BinOp {
                        op: BinOpKind::Or,
                        lhs: 0,
                        rhs: 0,
                        size: OpSize::I64,
                    }),
                ),
                Stmt::new(
                    Some(2),
                    Op::BinOp(BinOp {
                        op: BinOpKind::Add,
                        lhs: 1,
                        rhs: 0,
                        size: OpSize::I64,
                    }),
                ),
            ],
        }],
    };

    let out = copy_propagate(func);
    match &out.blocks[0].stmts[2].op {
        Op::BinOp(binop) => {
            assert_eq!(binop.lhs, 0);
            assert_eq!(binop.rhs, 0);
        }
        other => panic!("unexpected: {other:?}"),
    }
}

#[test]
fn rewrites_jump_target_and_wide_divide_operands() {
    let func = Function {
        entry: 0,
        blocks: vec![BasicBlock {
            id: 0,
            stmts: vec![
                Stmt::new(
                    Some(0),
                    Op::Constant(Constant {
                        value: 9,
                        size: OpSize::I64,
                    }),
                ),
                Stmt::new(
                    Some(1),
                    Op::BinOp(BinOp {
                        op: BinOpKind::Or,
                        lhs: 0,
                        rhs: 0,
                        size: OpSize::I64,
                    }),
                ),
                Stmt::new(
                    Some(2),
                    Op::WideDiv(WideDiv {
                        high: 1,
                        low: 1,
                        divisor: 1,
                        signed: false,
                        result: WideDivResult::Quotient,
                    }),
                ),
                Stmt::new(None, Op::JumpReg(JumpReg { target: 1 })),
            ],
        }],
    };

    let out = copy_propagate(func);
    match &out.blocks[0].stmts[2].op {
        Op::WideDiv(d) => {
            assert_eq!((d.high, d.low, d.divisor), (0, 0, 0));
        }
        other => panic!("unexpected: {other:?}"),
    }
    match &out.blocks[0].stmts[3].op {
        Op::JumpReg(j) => assert_eq!(j.target, 0),
        other => panic!("unexpected: {other:?}"),
    }
}
