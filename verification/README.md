# prisma

An x86-64 decoder that lifts machine code into an SSA IR, with optimization
passes and a PE32+ loader, verified with Verus.

- `src/ir.rs` — the SSA intermediate representation: operations, statements,
  basic blocks and functions, and the ref-rewriting primitives.
- `src/decoder/` — prefix, ModR/M and SIB parsing, the opcode tables and the
  instruction handlers that lower one x86 instruction to IR statements.
  Decoding returns statements in SSA form (each ref defined once, by a
  statement before every one that reads it) and never claims bytes past the
  end of the input.
- `src/passes/` — block-local optimizations (constant propagation, algebraic
  simplification, peephole rules, CSE, redundant load and dead store
  elimination, copy propagation, branch folding, flag write elimination, DCE),
  CFG analysis (successors, depth-first postorder, immediate dominators
  stated over the paths from the entry block, natural loops of the edges
  whose target dominates their source),
  dominator-forwarded CSE, loop-invariant code motion, and the pass pipeline.
  The block-local passes state each output block as a function of the input
  block; loop-invariant code motion states its output as a function of the
  input and the natural loops found for it, each hoisted statement placed
  just before the last statement of its loop's preheader.
- Strength reduction, x87 stack elimination and tail-call elimination are
  not implemented in this crate, so the default pipeline holds eleven
  passes, without the first two.
- `src/loader/` — PE32+ header validation, mapping of sections into the
  virtual image, and the import table walk.
- `app/` — serializable copies of the IR types and error types with
  `std::error::Error`, with conversions to and from the library's types.
- `tests/` — unit and scenario tests of every part.
