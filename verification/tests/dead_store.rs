use prisma::ir::{BasicBlock, Fence, FenceKind, Function, LoadMem, Op, OpSize, Stmt, StoreMem, StoreMemTSO};
use prisma::passes::dead_store::dead_store_eliminate;

fn store(addr: u32, value: u32, size: OpSize) -> Stmt {
    Stmt::new(None, Op::StoreMem(StoreMem { addr, value, size }))
}

#[test]
fn overwritten_store_is_dropped() {
    let func = Function {
        entry: 0,
        blocks: vec![BasicBlock {
            id: 0,
            stmts: vec![store(5, 0, OpSize::I64), store(5, 1, OpSize::I64)],
        }],
    };
    let out = dead_store_eliminate(func);
    assert_eq!(out.blocks[0].stmts.len(), 1);
    match &out.blocks[0].stmts[0].op {
        Op::StoreMem(s) => assert_eq!(s.value, 1),
        other => panic!("unexpected {other:?}"),
    }
}

#[test]
fn intervening_load_keeps_both() {
    let func = Function {
        entry: 0,
        blocks: vec![BasicBlock {
            id: 0,
            stmts: vec![
                store(5, 0, OpSize::I64),
                Stmt::new(Some(9), Op::LoadMem(LoadMem { addr: 6, size: OpSize::I64 })),
                store(5, 1, OpSize::I64),
            ],
        }],
    };
    let out = dead_store_eliminate(func.clone());
    assert_eq!(out, func);
}

#[test]
fn tso_store_never_killed() {
    let func = Function {
        entry: 0,
        blocks: vec![BasicBlock {
            id: 0,
            stmts: vec![
                Stmt::new(None, Op::StoreMemTSO(StoreMemTSO { addr: 5, value: 0, size: OpSize::I64 })),
                store(5, 1, OpSize::I64),
            ],
        }],
    };
    let out = dead_store_eliminate(func.clone());
    assert_eq!(out, func);
}

#[test]
fn different_addr_keeps_both() {
    let func = Function {
        entry: 0,
        blocks: vec![BasicBlock {
            id: 0,
            stmts: vec![store(5, 0, OpSize::I64), store(6, 1, OpSize::I64)],
        }],
    };
    let out = dead_store_eliminate(func.clone());
    assert_eq!(out, func);
}

#[test]
fn fence_blocks_elimination() {
    let func = Function {
        entry: 0,
        blocks: vec![BasicBlock {
            id: 0,
            stmts: vec![
                store(5, 0, OpSize::I64),
                Stmt::new(None, Op::Fence(Fence { kind: FenceKind::Sfence })),
                store(5, 1, OpSize::I64),
            ],
        }],
    };
    let out = dead_store_eliminate(func.clone());
    assert_eq!(out, func);
}
