use prisma::ir::{BasicBlock, CmpFlags, CondCode, CondJumpRel, Constant, Function, JumpRel, Op, OpSize, Stmt};
use prisma::passes::branch_fold::branch_fold;

fn cst(result: u32, value: u64) -> Stmt {
    Stmt::new(
        Some(result),
        Op::Constant(Constant {
            value,
            size: OpSize::I64,
        }),
    )
}

fn build(cc: CondCode, a: u64, b: u64) -> Function {
    Function {
        entry: 0,
        blocks: vec![BasicBlock {
            id: 0,
            stmts: vec![
                cst(0, a),
                cst(1, b),
                Stmt::new(
                    None,
                    Op::CmpFlags(CmpFlags {
                        lhs: 0,
                        rhs: 1,
                        size: OpSize::I64,
                    }),
                ),
                Stmt::new(
                    None,
                    Op::CondJumpRel(CondJumpRel {
                        cc,
                        target_guest_pc: 0x1000,
                        fallthrough_guest_pc: 0x2000,
                    }),
                ),
            ],
        }],
    }
}

fn last_target(func: &Function) -> Option<u64> {
    match &func.blocks[0].stmts.last().unwrap().op {
        Op::JumpRel(j) => Some(j.target_guest_pc),
        _ => None,
    }
}

#[test]
fn folds_taken_branch() {
    // 5 == 5 -> taken -> target 0x1000
    let out = branch_fold(build(CondCode::Eq, 5, 5));
    assert_eq!(last_target(&out), Some(0x1000));
}

#[test]
fn folds_not_taken_branch() {
    // 5 == 6 -> false -> fallthrough 0x2000
    let out = branch_fold(build(CondCode::Eq, 5, 6));
    assert_eq!(last_target(&out), Some(0x2000));
}

#[test]
fn signed_less_than_uses_signed_interpretation() {
    // -1 (0xFFFF..) Slt 1 -> true -> target
    let out = branch_fold(build(CondCode::Slt, u64::MAX, 1));
    assert_eq!(last_target(&out), Some(0x1000));
    // unsigned would be false: confirm Ult picks fallthrough.
    let out2 = branch_fold(build(CondCode::Ult, u64::MAX, 1));
    assert_eq!(last_target(&out2), Some(0x2000));
}

#[test]
fn flag_direct_cc_folds_to_fallthrough() {
    // eval_cond returns None for flag-direct ccs; with both operands known
    // the pass treats the condition as false and folds to the fallthrough.
    let out = branch_fold(build(CondCode::Cc, 5, 5));
    assert_eq!(last_target(&out), Some(0x2000));
}

#[test]
fn non_constant_operands_leave_branch() {
    let func = Function {
        entry: 0,
        blocks: vec![BasicBlock {
            id: 0,
            stmts: vec![
                Stmt::new(
                    None,
                    Op::CmpFlags(CmpFlags {
                        lhs: 7,
                        rhs: 8,
                        size: OpSize::I64,
                    }),
                ),
                Stmt::new(
                    None,
                    Op::CondJumpRel(CondJumpRel {
                        cc: CondCode::Eq,
                        target_guest_pc: 0x1000,
                        fallthrough_guest_pc: 0x2000,
                    }),
                ),
            ],
        }],
    };
    let out = branch_fold(func.clone());
    assert_eq!(out, func);
}
