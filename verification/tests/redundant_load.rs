use prisma::ir::{BasicBlock, BinOp, BinOpKind, Fence, FenceKind, Function, LoadMem, LoadMemTSO, Op, OpSize, Stmt, StoreMem};
use prisma::passes::redundant_load::redundant_load_eliminate;

fn load(result: u32, addr: u32, size: OpSize) -> Stmt {
    Stmt::new(Some(result), Op::LoadMem(LoadMem { addr, size }))
}

#[test]
fn second_identical_load_becomes_copy() {
    let func = Function {
        entry: 0,
        blocks: vec![BasicBlock {
            id: 0,
            stmts: vec![load(0, 5, OpSize::I64), load(1, 5, OpSize::I64)],
        }],
    };
    let out = redundant_load_eliminate(func);
    match &out.blocks[0].stmts[1].op {
        Op::BinOp(b) => {
            assert_eq!(b.op, BinOpKind::Or);
            assert_eq!(b.lhs, 0);
            assert_eq!(b.rhs, 0);
        }
        other => panic!("expected copy, got {other:?}"),
    }
}

#[test]
fn store_between_loads_blocks_forwarding() {
    let func = Function {
        entry: 0,
        blocks: vec![BasicBlock {
            id: 0,
            stmts: vec![
                load(0, 5, OpSize::I64),
                Stmt::new(
                    None,
                    Op::StoreMem(StoreMem {
                        addr: 6,
                        value: 0,
                        size: OpSize::I64,
                    }),
                ),
                load(1, 5, OpSize::I64),
            ],
        }],
    };
    let out = redundant_load_eliminate(func.clone());
    assert_eq!(out, func);
}

#[test]
fn fence_blocks_forwarding() {
    let func = Function {
        entry: 0,
        blocks: vec![BasicBlock {
            id: 0,
            stmts: vec![
                load(0, 5, OpSize::I32),
                Stmt::new(
                    None,
                    Op::Fence(Fence {
                        kind: FenceKind::Mfence,
                    }),
                ),
                load(1, 5, OpSize::I32),
            ],
        }],
    };
    let out = redundant_load_eliminate(func.clone());
    assert_eq!(out, func);
}

#[test]
fn different_size_is_not_redundant() {
    let func = Function {
        entry: 0,
        blocks: vec![BasicBlock {
            id: 0,
            stmts: vec![load(0, 5, OpSize::I32), load(1, 5, OpSize::I64)],
        }],
    };
    let out = redundant_load_eliminate(func.clone());
    assert_eq!(out, func);
}

#[test]
fn acquire_load_is_never_forwarded() {
    let tso = Stmt::new(Some(1), Op::LoadMemTSO(LoadMemTSO { addr: 5, size: OpSize::I64 }));
    let func = Function {
        entry: 0,
        blocks: vec![BasicBlock {
            id: 0,
            stmts: vec![load(0, 5, OpSize::I64), tso.clone()],
        }],
    };
    let out = redundant_load_eliminate(func);
    assert_eq!(out.blocks[0].stmts[1], tso);
}
