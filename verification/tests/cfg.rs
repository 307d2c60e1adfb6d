use prisma::ir::{BasicBlock, CondJump, Function, Jump, Op, Return, Stmt};
use prisma::passes::cfg::{dominators, natural_loops, postorder, successors};

fn jump(target: u32) -> Stmt {
    Stmt::new(
        None,
        Op::Jump(Jump {
            target_block: target,
        }),
    )
}
fn cond(if_true: u32, if_false: u32) -> Stmt {
    Stmt::new(
        None,
        Op::CondJump(CondJump {
            cond: 0,
            if_true,
            if_false,
        }),
    )
}
fn ret() -> Stmt {
    Stmt::new(None, Op::Return(Return))
}
fn blk(id: u32, stmts: Vec<Stmt>) -> BasicBlock {
    BasicBlock { id, stmts }
}

#[test]
fn successors_reads_terminators() {
    let f = Function {
        entry: 0,
        blocks: vec![blk(0, vec![cond(1, 2)])],
    };
    assert_eq!(successors(&f, 0), vec![1, 2]);
}

#[test]
fn diamond_dominators() {
    // 0 -> {1,2} -> 3
    let f = Function {
        entry: 0,
        blocks: vec![
            blk(0, vec![cond(1, 2)]),
            blk(1, vec![jump(3)]),
            blk(2, vec![jump(3)]),
            blk(3, vec![ret()]),
        ],
    };
    let idom = dominators(&f);
    assert_eq!(idom[&0], 0);
    assert_eq!(idom[&1], 0);
    assert_eq!(idom[&2], 0);
    // 3 has two preds (1,2); its idom is 0 (the join point).
    assert_eq!(idom[&3], 0);
}

#[test]
fn postorder_visits_children_first() {
    let f = Function {
        entry: 0,
        blocks: vec![blk(0, vec![jump(1)]), blk(1, vec![ret()])],
    };
    let po = postorder(&f);
    // child 1 before parent 0
    assert_eq!(po, vec![1, 0]);
}

#[test]
fn simple_loop_detected() {
    // 0 -> 1 ; 1 -> {1 (back), 2} ; 2 -> ret
    let f = Function {
        entry: 0,
        blocks: vec![
            blk(0, vec![jump(1)]),
            blk(1, vec![cond(1, 2)]),
            blk(2, vec![ret()]),
        ],
    };
    let loops = natural_loops(&f);
    assert_eq!(loops.len(), 1);
    assert_eq!(loops[0].header, 1);
    assert_eq!(loops[0].body, vec![1]);
}

#[test]
fn two_block_loop_body() {
    // 0 -> 1 ; 1 -> 2 ; 2 -> {1 (back), 3} ; 3 -> ret
    let f = Function {
        entry: 0,
        blocks: vec![
            blk(0, vec![jump(1)]),
            blk(1, vec![jump(2)]),
            blk(2, vec![cond(1, 3)]),
            blk(3, vec![ret()]),
        ],
    };
    let loops = natural_loops(&f);
    assert_eq!(loops.len(), 1);
    assert_eq!(loops[0].header, 1);
    assert_eq!(loops[0].body, vec![1, 2]);
}

#[test]
fn two_back_edges_same_header_merge_to_one_loop() {
    // 0 -> 1 ; 1 -> {2,3} ; 2 -> 1 (back) ; 3 -> {1 (back), 4} ; 4 -> ret
    // Two back-edges into header 1 must yield ONE loop with merged body.
    let f = Function {
        entry: 0,
        blocks: vec![
            blk(0, vec![jump(1)]),
            blk(1, vec![cond(2, 3)]),
            blk(2, vec![jump(1)]),
            blk(3, vec![cond(1, 4)]),
            blk(4, vec![ret()]),
        ],
    };
    let loops = natural_loops(&f);
    assert_eq!(loops.len(), 1, "back-edges sharing a header merge");
    assert_eq!(loops[0].header, 1);
    assert_eq!(loops[0].body, vec![1, 2, 3]);
}

#[test]
fn dangling_target_does_not_panic() {
    // Jump to a non-existent block id 99 — must be ignored, not panic.
    let f = Function {
        entry: 0,
        blocks: vec![blk(0, vec![jump(99)])],
    };
    assert_eq!(postorder(&f), vec![0]);
    assert_eq!(dominators(&f).get(&0), Some(&0));
    assert!(natural_loops(&f).is_empty());
}

#[test]
fn no_loop_in_acyclic() {
    let f = Function {
        entry: 0,
        blocks: vec![blk(0, vec![jump(1)]), blk(1, vec![ret()])],
    };
    assert!(natural_loops(&f).is_empty());
}

#[test]
fn unreachable_blocks_have_no_dominator_and_no_loop() {
    // 0 -> 1 -> 0 is a loop; block 2 loops on itself but nothing reaches it.
    let f = Function {
        entry: 0,
        blocks: vec![
            blk(0, vec![jump(1)]),
            blk(1, vec![cond(0, 3)]),
            blk(2, vec![jump(2)]),
            blk(3, vec![ret()]),
        ],
    };
    let idom = dominators(&f);
    assert_eq!(idom.len(), 3);
    assert_eq!(idom[&0], 0);
    assert_eq!(idom[&1], 0);
    assert_eq!(idom[&3], 1);
    assert!(idom.get(&2).is_none());
    let loops = natural_loops(&f);
    assert_eq!(loops.len(), 1);
    assert_eq!(loops[0].header, 0);
    assert_eq!(loops[0].body, vec![0, 1]);
}

#[test]
fn chain_dominators_follow_the_chain() {
    // 0 -> 1 -> 2 -> 3, with a side edge 1 -> 3.
    let f = Function {
        entry: 0,
        blocks: vec![
            blk(0, vec![jump(1)]),
            blk(1, vec![cond(2, 3)]),
            blk(2, vec![jump(3)]),
            blk(3, vec![ret()]),
        ],
    };
    let idom = dominators(&f);
    assert_eq!(idom.len(), 4);
    assert_eq!(idom[&2], 1);
    assert_eq!(idom[&3], 1);
    assert_eq!(postorder(&f), vec![3, 2, 1, 0]);
}

#[test]
fn nested_loops_are_each_found() {
    // 0 -> 1 -> 2 (self loop) -> 3 -> {1, 4}
    let f = Function {
        entry: 0,
        blocks: vec![
            blk(0, vec![jump(1)]),
            blk(1, vec![jump(2)]),
            blk(2, vec![cond(2, 3)]),
            blk(3, vec![cond(1, 4)]),
            blk(4, vec![ret()]),
        ],
    };
    let loops = natural_loops(&f);
    assert_eq!(loops.len(), 2);
    assert_eq!(loops[0].header, 2);
    assert_eq!(loops[0].body, vec![2]);
    assert_eq!(loops[1].header, 1);
    assert_eq!(loops[1].body, vec![1, 2, 3]);
}

#[test]
fn join_block_is_dominated_by_the_branch_point() {
    // 0 -> 1 -> {2, 3} -> 4 -> 1
    let f = Function {
        entry: 0,
        blocks: vec![
            blk(0, vec![jump(1)]),
            blk(1, vec![cond(2, 3)]),
            blk(2, vec![jump(4)]),
            blk(3, vec![jump(4)]),
            blk(4, vec![cond(1, 5)]),
            blk(5, vec![ret()]),
        ],
    };
    let d = dominators(&f);
    assert_eq!(d[&0], 0);
    assert_eq!(d[&1], 0);
    assert_eq!(d[&2], 1);
    assert_eq!(d[&3], 1);
    assert_eq!(d[&4], 1);
    assert_eq!(d[&5], 4);
    let loops = natural_loops(&f);
    assert_eq!(loops.len(), 1);
    assert_eq!(loops[0].header, 1);
    assert_eq!(loops[0].body, vec![1, 2, 3, 4]);
}
