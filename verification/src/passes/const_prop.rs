//! Constant propagation pass.
//!
//! A forward fold per basic block: statements whose operands are all known
//! constants (binary operations, extensions, truncations and the bit-count
//! operations) are replaced by the constant they compute.

use std::collections::HashMap;

use vstd::prelude::*;

use crate::ir::{BinOpKind, Constant, Function, Op, OpSize, Ref, Stmt};
use crate::passes::{blockwise, map_blocks, Pass};

verus! {

broadcast use vstd::std_specs::hash::group_hash_axioms;

/// Bit `i` of `v`.
pub open spec fn bit(v: u64, i: u64) -> bool {
    (v >> i) & 1 == 1
}

/// Number of set bits of `v` at positions `i..64`.
pub open spec fn popcount_from(v: u64, i: nat) -> nat
    decreases 64 - i,
{
    if i >= 64 {
        0
    } else {
        (if bit(v, i as u64) { 1nat } else { 0nat }) + popcount_from(v, i + 1)
    }
}

/// Position of the lowest set bit of `v` at or above `i`, or 64 when none.
pub open spec fn lowest_set_from(v: u64, i: nat) -> nat
    decreases 64 - i,
{
    if i >= 64 {
        64
    } else if bit(v, i as u64) {
        i
    } else {
        lowest_set_from(v, i + 1)
    }
}

/// Number of clear bits above the highest set bit among positions `0..=j` of
/// a `w`-bit value (`w` when none of them is set).
pub open spec fn leading_zeros_within(v: u64, w: nat, j: int) -> nat
    decreases j + 1,
{
    if j < 0 {
        w
    } else if bit(v, j as u64) {
        (w - 1 - j) as nat
    } else {
        leading_zeros_within(v, w, j - 1)
    }
}

/// Population count of `v` masked to `size`.
pub open spec fn spec_popcnt(v: u64, size: OpSize) -> u64 {
    popcount_from(v & size.spec_mask(), 0) as u64
}

/// Leading-zero count of `v` masked to `size`, counted within the width of `size`.
pub open spec fn spec_lzcnt(v: u64, size: OpSize) -> u64 {
    leading_zeros_within(v & size.spec_mask(), size.spec_bit_width() as nat, size.spec_bit_width() - 1) as u64
}

/// Trailing-zero count of `v` masked to `size` (the width of `size` when zero).
pub open spec fn spec_tzcnt(v: u64, size: OpSize) -> u64 {
    if v & size.spec_mask() == 0 {
        size.spec_bit_width() as u64
    } else {
        lowest_set_from(v & size.spec_mask(), 0) as u64
    }
}

/// Bits of `src`, taken from its low end, deposited in turn at the set
/// positions of `mask` at or above `i`.
pub open spec fn deposit_from(src: u64, mask: u64, i: nat) -> u64
    decreases 64 - i,
{
    if i >= 64 {
        0
    } else if bit(mask, i as u64) {
        (if bit(src, 0) { 1u64 << (i as u64) } else { 0u64 }) | deposit_from(src >> 1, mask, i + 1)
    } else {
        deposit_from(src, mask, i + 1)
    }
}

/// Bits of `src` at the set positions of `mask` at or above `i`, packed in turn
/// starting at bit `k` of the result.
pub open spec fn extract_from(src: u64, mask: u64, i: nat, k: nat) -> u64
    decreases 64 - i,
{
    if i >= 64 || k >= 64 {
        0
    } else if bit(mask, i as u64) {
        (if bit(src, i as u64) { 1u64 << (k as u64) } else { 0u64 }) | extract_from(src, mask, i + 1, k + 1)
    } else {
        extract_from(src, mask, i + 1, k)
    }
}

/// The value of `v` (masked to `from`) sign-extended from `from` and masked to `to`.
pub open spec fn spec_sign_extend(v: u64, from: OpSize, to: OpSize) -> u64 {
    let masked = v & from.spec_mask();
    if from.spec_bit_width() >= 64 {
        masked & to.spec_mask()
    } else {
        let sign_bit = 1u64 << (from.spec_bit_width() - 1) as u64;
        let out = if masked & sign_bit != 0 {
            masked | !(((1u64 << from.spec_bit_width() as u64) - 1) as u64)
        } else {
            masked
        };
        out & to.spec_mask()
    }
}

/// `a` rotated left by `n` bits (`0 < n < 64`).
pub open spec fn rotl(a: u64, n: u64) -> u64 {
    (a << n) | (a >> ((64 - n) as u64))
}

/// `a` rotated right by `n` bits (`0 < n < 64`).
pub open spec fn rotr(a: u64, n: u64) -> u64 {
    (a >> n) | (a << ((64 - n) as u64))
}

/// 64-bit evaluation of a binary operation, before masking to the operand size.
/// Shift and rotate counts are taken modulo 64; division and remainder by zero
/// give 0 and the dividend, and the signed overflow case `MIN / -1` gives the
/// dividend (remainder 0). `UMulHi` and `SMulHi` take the high 64 bits of the
/// 128-bit product of the operands read as unsigned and as signed numbers.
pub open spec fn spec_eval_binop(op: BinOpKind, a: u64, b: u64) -> u64 {
    let n = b & 0x3f;
    match op {
        BinOpKind::Add => vstd::wrapping::u64_specs::wrapping_add(a, b),
        BinOpKind::Sub => vstd::wrapping::u64_specs::wrapping_sub(a, b),
        BinOpKind::Mul => vstd::wrapping::u64_specs::wrapping_mul(a, b),
        BinOpKind::And => a & b,
        BinOpKind::Or => a | b,
        BinOpKind::Xor => a ^ b,
        BinOpKind::Shl => a << n,
        BinOpKind::Shr => a >> n,
        BinOpKind::Sar => ((a as i64) >> n) as u64,
        BinOpKind::Rol | BinOpKind::Rcl => if n == 0 { a } else { rotl(a, n) },
        BinOpKind::Ror | BinOpKind::Rcr => if n == 0 { a } else { rotr(a, n) },
        BinOpKind::UMulHi => ((a as int * b as int) / 0x1_0000_0000_0000_0000) as u64,
        BinOpKind::SMulHi => (((a as i64) as int * (b as i64) as int) / 0x1_0000_0000_0000_0000) as u64,
        BinOpKind::UDiv => if b == 0 { 0 } else { a / b },
        BinOpKind::SDiv => {
            let lhs = a as i64;
            let rhs = b as i64;
            if rhs == 0 {
                0
            } else if lhs == i64::MIN && rhs == -1 {
                a
            } else {
                match lhs.checked_div(rhs) {
                    Some(q) => q as u64,
                    None => a,
                }
            }
        },
        BinOpKind::UMod => if b == 0 { a } else { a % b },
        BinOpKind::SMod => {
            let lhs = a as i64;
            let rhs = b as i64;
            if rhs == 0 {
                a
            } else if lhs == i64::MIN && rhs == -1 {
                0
            } else {
                match lhs.checked_rem(rhs) {
                    Some(q) => q as u64,
                    None => 0,
                }
            }
        },
        BinOpKind::Pdep => deposit_from(a, b, 0),
        BinOpKind::Pext => extract_from(a, b, 0, 0),
    }
}

proof fn lemma_bit_is_low_bit(v: u64, i: u64)
    ensures
        (v >> i) & 1 == 0 || (v >> i) & 1 == 1,
{
    assert((v >> i) & 1 == 0 || (v >> i) & 1 == 1) by (bit_vector);
}

fn eval_popcnt(v: u64, size: OpSize) -> (r: u64)
    ensures
        r == spec_popcnt(v, size),
{
    let x = v & size.mask();
    let mut count: u64 = 0;
    let mut i: u64 = 0;
    while i < 64
        invariant
            i <= 64,
            count <= i,
            count + popcount_from(x, i as nat) == popcount_from(x, 0),
        decreases 64 - i,
    {
        proof {
            lemma_bit_is_low_bit(x, i);
        }
        if (x >> i) & 1 == 1 {
            count = count + 1;
        }
        i = i + 1;
    }
    proof {
        assert(popcount_from(x, 64) == 0);
    }
    count
}

fn eval_lzcnt(v: u64, size: OpSize) -> (r: u64)
    ensures
        r == spec_lzcnt(v, size),
{
    let x = v & size.mask();
    let w = size.bit_width() as u64;
    let mut j: u64 = w;
    while j > 0
        invariant
            j <= w,
            w == size.spec_bit_width(),
            x == v & size.spec_mask(),
            leading_zeros_within(x, w as nat, j - 1) as u64 == spec_lzcnt(v, size),
        decreases j,
    {
        proof {
            lemma_bit_is_low_bit(x, (j - 1) as u64);
        }
        if (x >> (j - 1)) & 1 == 1 {
            return w - j;
        }
        j = j - 1;
    }
    w
}

fn eval_tzcnt(v: u64, size: OpSize) -> (r: u64)
    ensures
        r == spec_tzcnt(v, size),
{
    let x = v & size.mask();
    if x == 0 {
        return size.bit_width() as u64;
    }
    let mut i: u64 = 0;
    while i < 64
        invariant
            i <= 64,
            x == v & size.spec_mask(),
            x != 0,
            lowest_set_from(x, i as nat) == lowest_set_from(x, 0),
        decreases 64 - i,
    {
        proof {
            lemma_bit_is_low_bit(x, i);
        }
        if (x >> i) & 1 == 1 {
            return i;
        }
        i = i + 1;
    }
    proof {
        lemma_nonzero_has_set_bit(x);
    }
    64
}

proof fn lemma_nonzero_has_set_bit(x: u64)
    requires
        x != 0,
    ensures
        lowest_set_from(x, 0) < 64,
{
    if lowest_set_from(x, 0) >= 64 {
        lemma_no_set_bit_shift_zero(x, 0);
        assert(x >> 0u64 == x) by (bit_vector);
    }
}

proof fn lemma_no_set_bit_shift_zero(x: u64, i: nat)
    requires
        i < 64,
        lowest_set_from(x, i) >= 64,
    ensures
        x >> (i as u64) == 0,
    decreases 64 - i,
{
    let iu = i as u64;
    if i == 63 {
        assert(!bit(x, 63));
        assert((x >> 63u64) & 1 != 1 ==> x >> 63u64 == 0) by (bit_vector);
    } else {
        lemma_no_set_bit_shift_zero(x, i + 1);
        assert(!bit(x, iu));
        assert(iu < 63 && (x >> iu) & 1 != 1 && x >> ((iu + 1) as u64) == 0 ==> x >> iu == 0)
            by (bit_vector);
    }
}

proof fn lemma_lowest_set_below(x: u64, start: nat, i: nat)
    requires
        start <= i < 64,
        bit(x, i as u64),
    ensures
        lowest_set_from(x, start) <= i,
    decreases i - start,
{
    if start < i && !bit(x, start as u64) {
        lemma_lowest_set_below(x, start + 1, i);
    }
}

fn eval_binop(op: BinOpKind, a: u64, b: u64) -> (r: u64)
    ensures
        r == spec_eval_binop(op, a, b),
{
    let n = b & 0x3f;
    assert(n < 64) by (bit_vector)
        requires
            n == b & 0x3f,
    ;
    match op {
        BinOpKind::Add => a.wrapping_add(b),
        BinOpKind::Sub => a.wrapping_sub(b),
        BinOpKind::Mul => a.wrapping_mul(b),
        BinOpKind::And => a & b,
        BinOpKind::Or => a | b,
        BinOpKind::Xor => a ^ b,
        BinOpKind::Shl => a << n,
        BinOpKind::Shr => a >> n,
        BinOpKind::Sar => ((a as i64) >> n) as u64,
        BinOpKind::Rol | BinOpKind::Rcl => {
            if n == 0 {
                a
            } else {
                (a << n) | (a >> (64 - n))
            }
        },
        BinOpKind::Ror | BinOpKind::Rcr => {
            if n == 0 {
                a
            } else {
                (a >> n) | (a << (64 - n))
            }
        },
        BinOpKind::SMulHi => {
            let sa = (a as i64) as i128;
            let sb = (b as i64) as i128;
            assert(-0x4000_0000_0000_0000_0000_0000_0000_0000 <= sa * sb <= 0x4000_0000_0000_0000_0000_0000_0000_0000) by (nonlinear_arith)
                requires
                    -0x8000_0000_0000_0000 <= sa <= 0x7FFF_FFFF_FFFF_FFFF,
                    -0x8000_0000_0000_0000 <= sb <= 0x7FFF_FFFF_FFFF_FFFF,
            ;
            let product = sa * sb;
            let high = product >> 64u32;
            assert(high == product / 0x1_0000_0000_0000_0000) by (bit_vector)
                requires
                    high == product >> 64u32,
            ;
            high as u64
        },
        BinOpKind::UMulHi => {
            let wa = a as u128;
            let wb = b as u128;
            assert(wa * wb <= 0xFFFF_FFFF_FFFF_FFFF_FFFF_FFFF_FFFF_FFFF) by (nonlinear_arith)
                requires
                    wa <= 0xFFFF_FFFF_FFFF_FFFF,
                    wb <= 0xFFFF_FFFF_FFFF_FFFF,
            ;
            let product = wa * wb;
            let high = product >> 64u32;
            assert(high == product / 0x1_0000_0000_0000_0000) by (bit_vector)
                requires
                    high == product >> 64u32,
            ;
            assert(high <= 0xFFFF_FFFF_FFFF_FFFF) by (bit_vector)
                requires
                    high == product >> 64u32,
            ;
            high as u64
        },
        BinOpKind::UDiv => {
            if b == 0 {
                0
            } else {
                a / b
            }
        },
        BinOpKind::SDiv => {
            let lhs = a as i64;
            let rhs = b as i64;
            if rhs == 0 {
                0
            } else if lhs == i64::MIN && rhs == -1 {
                a
            } else {
                match lhs.checked_div(rhs) {
                    Some(q) => q as u64,
                    None => a,
                }
            }
        },
        BinOpKind::UMod => {
            if b == 0 {
                a
            } else {
                a % b
            }
        },
        BinOpKind::SMod => {
            let lhs = a as i64;
            let rhs = b as i64;
            if rhs == 0 {
                a
            } else if lhs == i64::MIN && rhs == -1 {
                0
            } else {
                match lhs.checked_rem(rhs) {
                    Some(q) => q as u64,
                    None => 0,
                }
            }
        },
        BinOpKind::Pdep => bit_deposit(a, b),
        BinOpKind::Pext => bit_extract(a, b),
    }
}

fn bit_deposit(src: u64, mask: u64) -> (r: u64)
    ensures
        r == deposit_from(src, mask, 0),
{
    let mut out: u64 = 0;
    let mut value = src;
    let mut i: u64 = 0;
    let ghost total = deposit_from(src, mask, 0);
    assert(0u64 | total == total) by (bit_vector);
    while i < 64
        invariant
            i <= 64,
            out | deposit_from(value, mask, i as nat) == deposit_from(src, mask, 0),
        decreases 64 - i,
    {
        proof {
            lemma_bit_is_low_bit(mask, i);
            lemma_bit_is_low_bit(value, 0);
        }
        assert(value >> 0u64 == value) by (bit_vector);
        let ghost rest = deposit_from(value >> 1, mask, (i + 1) as nat);
        if (mask >> i) & 1 == 1 {
            if value & 1 == 1 {
                let bitv = 1u64 << i;
                assert(out | (bitv | rest) == (out | bitv) | rest) by (bit_vector);
                out = out | bitv;
            } else {
                assert(out | (0u64 | rest) == out | rest) by (bit_vector);
            }
            value = value >> 1;
        }
        i = i + 1;
    }
    assert(out | 0u64 == out) by (bit_vector);
    out
}

fn bit_extract(src: u64, mask: u64) -> (r: u64)
    ensures
        r == extract_from(src, mask, 0, 0),
{
    let mut out: u64 = 0;
    let mut k: u64 = 0;
    let mut i: u64 = 0;
    let ghost total = extract_from(src, mask, 0, 0);
    assert(0u64 | total == total) by (bit_vector);
    while i < 64
        invariant
            k <= i <= 64,
            out | extract_from(src, mask, i as nat, k as nat) == extract_from(src, mask, 0, 0),
        decreases 64 - i,
    {
        proof {
            lemma_bit_is_low_bit(mask, i);
            lemma_bit_is_low_bit(src, i);
        }
        if (mask >> i) & 1 == 1 {
            let ghost rest = extract_from(src, mask, (i + 1) as nat, (k + 1) as nat);
            if (src >> i) & 1 == 1 {
                let bitv = 1u64 << k;
                assert(out | (bitv | rest) == (out | bitv) | rest) by (bit_vector);
                out = out | bitv;
            } else {
                assert(out | (0u64 | rest) == out | rest) by (bit_vector);
            }
            k = k + 1;
        }
        i = i + 1;
    }
    assert(out | 0u64 == out) by (bit_vector);
    out
}

fn sign_extend(v: u64, from: OpSize, to: OpSize) -> (r: u64)
    ensures
        r == spec_sign_extend(v, from, to),
{
    let masked = v & from.mask();
    let width = from.bit_width();
    if width >= 64 {
        return masked & to.mask();
    }
    let sign_bit = 1u64 << (width - 1);
    let top = 1u64 << width;
    assert(top >= 1) by (bit_vector)
        requires
            width < 64,
            top == 1u64 << width,
    ;
    let out = if (masked & sign_bit) != 0 {
        masked | !(top - 1)
    } else {
        masked
    };
    out & to.mask()
}

/// The constant (masked value and size) a statement folds to, given the
/// constants `env` known before it in its block; `None` when it does not fold.
pub open spec fn cp_fold(st: Stmt, env: Map<Ref, u64>) -> Option<(u64, OpSize)> {
    match st.op {
        Op::Constant(c) => Some((c.value & c.size.spec_mask(), c.size)),
        Op::BinOp(b) => if env.contains_key(b.lhs) && env.contains_key(b.rhs) {
            Some((spec_eval_binop(b.op, env[b.lhs], env[b.rhs]) & b.size.spec_mask(), b.size))
        } else {
            None
        },
        Op::Extend(e) => if env.contains_key(e.value) {
            let v = env[e.value];
            Some((
                if e.is_signed {
                    spec_sign_extend(v, e.from_size, e.to_size)
                } else {
                    (v & e.from_size.spec_mask()) & e.to_size.spec_mask()
                },
                e.to_size,
            ))
        } else {
            None
        },
        Op::Truncate(t) => if env.contains_key(t.value) {
            Some((env[t.value] & t.to_size.spec_mask(), t.to_size))
        } else {
            None
        },
        Op::Popcnt(p) => if env.contains_key(p.value) {
            Some((spec_popcnt(env[p.value], p.size), p.size))
        } else {
            None
        },
        Op::Lzcnt(l) => if env.contains_key(l.value) {
            Some((spec_lzcnt(env[l.value], l.size), l.size))
        } else {
            None
        },
        Op::Tzcnt(t) => if env.contains_key(t.value) {
            Some((spec_tzcnt(env[t.value], t.size), t.size))
        } else {
            None
        },
        _ => None,
    }
}

/// The statement after folding: a statement with a result that folds becomes
/// the constant it computes; every other statement is kept.
pub open spec fn cp_stmt(st: Stmt, env: Map<Ref, u64>) -> Stmt {
    match (st.result, cp_fold(st, env)) {
        (Some(r), Some((v, size))) => Stmt { result: Some(r), op: Op::Constant(Constant { value: v, size }) },
        _ => st,
    }
}

/// The known constants after a statement.
pub open spec fn cp_env_after(st: Stmt, env: Map<Ref, u64>) -> Map<Ref, u64> {
    match (st.result, cp_fold(st, env)) {
        (Some(r), Some((v, _))) => env.insert(r, v),
        _ => env,
    }
}

/// The constants known before statement `n` of a block.
pub open spec fn cp_env(s: Seq<Stmt>, n: nat) -> Map<Ref, u64>
    decreases n,
{
    if n == 0 || n > s.len() {
        Map::empty()
    } else {
        cp_env_after(s[n - 1], cp_env(s, (n - 1) as nat))
    }
}

/// A block after constant propagation.
pub open spec fn cp_block(s: Seq<Stmt>) -> Seq<Stmt> {
    Seq::new(s.len(), |i: int| cp_stmt(s[i], cp_env(s, i as nat)))
}

fn fold_stmt(st: &Stmt, consts: &HashMap<u32, u64>) -> (r: Option<(u64, OpSize)>)
    ensures
        r == cp_fold(*st, consts@),
{
    match &st.op {
        Op::Constant(c) => Some((c.value & c.size.mask(), c.size)),
        Op::BinOp(b) => match (consts.get(&b.lhs), consts.get(&b.rhs)) {
            (Some(a), Some(bv)) => Some((eval_binop(b.op, *a, *bv) & b.size.mask(), b.size)),
            _ => None,
        },
        Op::Extend(e) => match consts.get(&e.value) {
            Some(v) => {
                let value = if e.is_signed {
                    sign_extend(*v, e.from_size, e.to_size)
                } else {
                    (*v & e.from_size.mask()) & e.to_size.mask()
                };
                Some((value, e.to_size))
            },
            None => None,
        },
        Op::Truncate(t) => match consts.get(&t.value) {
            Some(v) => Some((*v & t.to_size.mask(), t.to_size)),
            None => None,
        },
        Op::Popcnt(p) => match consts.get(&p.value) {
            Some(v) => Some((eval_popcnt(*v, p.size), p.size)),
            None => None,
        },
        Op::Lzcnt(l) => match consts.get(&l.value) {
            Some(v) => Some((eval_lzcnt(*v, l.size), l.size)),
            None => None,
        },
        Op::Tzcnt(t) => match consts.get(&t.value) {
            Some(v) => Some((eval_tzcnt(*v, t.size), t.size)),
            None => None,
        },
        _ => None,
    }
}

fn constant_propagate_block(stmts: Vec<Stmt>) -> (out: Vec<Stmt>)
    ensures
        out@ == cp_block(stmts@),
{
    broadcast use vstd::std_specs::vec::axiom_spec_into_iter;
    let ghost s = stmts@;
    let mut consts: HashMap<u32, u64> = HashMap::new();
    let mut out: Vec<Stmt> = Vec::new();
    for stmt in it: stmts.into_iter()
        invariant
            it.seq() == s,
            out.len() == it.index(),
            consts@ == cp_env(s, it.index() as nat),
            forall|i: int| 0 <= i < out.len() ==> out[i] == cp_stmt(s[i], cp_env(s, i as nat)),
    {
        let folded = fold_stmt(&stmt, &consts);
        match (stmt.result, folded) {
            (Some(r), Some((value, size))) => {
                consts.insert(r, value);
                out.push(Stmt::new(Some(r), Op::Constant(Constant { value, size })));
            },
            _ => {
                out.push(stmt);
            },
        }
    }
    proof {
        assert(out@ =~= cp_block(s));
    }
    out
}

#[derive(Debug, Default, Clone, Copy, PartialEq, Eq)]
pub struct ConstantProp;

impl ConstantProp {
    #[must_use]
    pub fn new() -> Self {
        Self
    }
}

/// Fold constants per basic block.
pub fn constant_propagate(func: Function) -> (out: Function)
    ensures
        blockwise(func, out, |s: Seq<Stmt>| cp_block(s)),
{
    map_blocks(func, &constant_propagate_block, Ghost(|s: Seq<Stmt>| cp_block(s)))
}

impl Pass for ConstantProp {
    fn name(&self) -> (r: &'static str)
        ensures
            r@ == "constant_propagate"@,
    {
        "constant_propagate"
    }

    fn run(&self, func: Function) -> (out: Function)
        ensures
            blockwise(func, out, |s: Seq<Stmt>| cp_block(s)),
    {
        constant_propagate(func)
    }
}

/// Folded addition is addition modulo 2^64.
pub proof fn law_fold_add(a: u64, b: u64)
    ensures
        spec_eval_binop(BinOpKind::Add, a, b) as int == (a as int + b as int) % 0x1_0000_0000_0000_0000,
{
}

/// Folded subtraction is subtraction modulo 2^64: adding `b` back to the
/// result gives `a`.
pub proof fn law_fold_sub(a: u64, b: u64)
    ensures
        (spec_eval_binop(BinOpKind::Sub, a, b) as int + b as int) % 0x1_0000_0000_0000_0000 == a as int,
        spec_eval_binop(BinOpKind::Sub, a, b) as int == (a as int - b as int + 0x1_0000_0000_0000_0000) % 0x1_0000_0000_0000_0000,
{
}

/// Folded multiplication is multiplication modulo 2^64.
pub proof fn law_fold_mul(a: u64, b: u64)
    ensures
        spec_eval_binop(BinOpKind::Mul, a, b) as int == (a as int * b as int) % 0x1_0000_0000_0000_0000,
{
}

/// Bit `i` of the folded `and`, `or` and `xor` of `a` and `b` is the
/// conjunction, disjunction and difference of their bits `i`.
pub proof fn law_fold_bitwise(a: u64, b: u64, i: u64)
    requires
        i < 64,
    ensures
        (spec_eval_binop(BinOpKind::And, a, b) >> i) & 1 == 1 <==> ((a >> i) & 1 == 1 && (b >> i) & 1 == 1),
        (spec_eval_binop(BinOpKind::Or, a, b) >> i) & 1 == 1 <==> ((a >> i) & 1 == 1 || (b >> i) & 1 == 1),
        (spec_eval_binop(BinOpKind::Xor, a, b) >> i) & 1 == 1 <==> ((a >> i) & 1 != (b >> i) & 1),
{
    let x = a & b;
    let y = a | b;
    let z = a ^ b;
    assert(((x >> i) & 1 == 1) <==> ((a >> i) & 1 == 1 && (b >> i) & 1 == 1)) by (bit_vector)
        requires
            x == a & b,
            i < 64;
    assert(((y >> i) & 1 == 1) <==> ((a >> i) & 1 == 1 || (b >> i) & 1 == 1)) by (bit_vector)
        requires
            y == a | b,
            i < 64;
    assert(((z >> i) & 1 == 1) <==> ((a >> i) & 1 != (b >> i) & 1)) by (bit_vector)
        requires
            z == a ^ b,
            i < 64;
}

/// A folded logical right shift divides by 2 to the power of the shift
/// count taken modulo 64; a left shift that does not overflow multiplies by
/// it.
pub proof fn law_fold_shifts(a: u64, b: u64)
    ensures
        spec_eval_binop(BinOpKind::Shr, a, b) as nat == a as nat / vstd::arithmetic::power2::pow2((b % 64) as nat),
        a * vstd::arithmetic::power2::pow2((b % 64) as nat) <= u64::MAX
            ==> spec_eval_binop(BinOpKind::Shl, a, b) == a * vstd::arithmetic::power2::pow2((b % 64) as nat),
{
    let n = b & 0x3f;
    assert(n == b % 64) by (bit_vector)
        requires
            n == b & 0x3f;
    vstd::bits::lemma_u64_shr_is_div(a, n);
    if a * vstd::arithmetic::power2::pow2((b % 64) as nat) <= u64::MAX {
        vstd::bits::lemma_u64_shl_is_mul(a, n);
    }
}

/// Folded unsigned division and remainder split the dividend: for a
/// nonzero divisor, `a == q * b + r` with `r < b`; by zero, the quotient is
/// 0 and the remainder the dividend.
pub proof fn law_fold_udiv_umod(a: u64, b: u64)
    ensures
        b != 0 ==> spec_eval_binop(BinOpKind::UDiv, a, b) as int * b as int + spec_eval_binop(BinOpKind::UMod, a, b) as int == a as int,
        b != 0 ==> spec_eval_binop(BinOpKind::UMod, a, b) < b,
        b == 0 ==> spec_eval_binop(BinOpKind::UDiv, a, b) == 0 && spec_eval_binop(BinOpKind::UMod, a, b) == a,
{
    if b != 0 {
        assert(a as int == (a as int / b as int) * b as int + a as int % b as int) by (nonlinear_arith)
            requires
                b != 0;
    }
}

/// The high half of a folded unsigned high multiply and the folded low
/// multiply together make the full 128-bit product.
pub proof fn law_fold_mul_hi(a: u64, b: u64)
    ensures
        spec_eval_binop(BinOpKind::UMulHi, a, b) as int * 0x1_0000_0000_0000_0000 + spec_eval_binop(BinOpKind::Mul, a, b) as int
            == a as int * b as int,
{
    let p = a as int * b as int;
    assert(0 <= p <= 0xFFFF_FFFF_FFFF_FFFE_0000_0000_0000_0001) by (nonlinear_arith)
        requires
            p == a as int * b as int,
            0 <= a <= 0xFFFF_FFFF_FFFF_FFFF,
            0 <= b <= 0xFFFF_FFFF_FFFF_FFFF;
    assert(p == (p / 0x1_0000_0000_0000_0000) * 0x1_0000_0000_0000_0000 + p % 0x1_0000_0000_0000_0000) by (nonlinear_arith);
    assert(p / 0x1_0000_0000_0000_0000 <= 0xFFFF_FFFF_FFFF_FFFF) by (nonlinear_arith)
        requires
            0 <= p <= 0xFFFF_FFFF_FFFF_FFFE_0000_0000_0000_0001;
}

/// Bit `i` of a folded arithmetic right shift by `n` (the count modulo 64)
/// is bit `i + n` of the operand, or its sign bit past the top; bit `i` of a
/// left shift is bit `i - n`, or 0 below `n`.
pub proof fn law_fold_sar_shl_bits(a: u64, b: u64, i: u64)
    requires
        i < 64,
    ensures
        (spec_eval_binop(BinOpKind::Sar, a, b) >> i) & 1
            == (a >> (if i + (b & 0x3f) < 64 { (i + (b & 0x3f)) as u64 } else { 63u64 })) & 1,
        (spec_eval_binop(BinOpKind::Shl, a, b) >> i) & 1
            == (if i >= (b & 0x3f) { (a >> ((i - (b & 0x3f)) as u64)) & 1 } else { 0 }),
{
    let n = b & 0x3f;
    let r = ((a as i64) >> n) as u64;
    let l = a << n;
    assert(n < 64) by (bit_vector)
        requires
            n == b & 0x3f;
    assert((r >> i) & 1 == (a >> (if i + n < 64 { (i + n) as u64 } else { 63u64 })) & 1) by (bit_vector)
        requires
            r == ((a as i64) >> n) as u64,
            n < 64,
            i < 64;
    assert((l >> i) & 1 == (if i >= n { (a >> ((i - n) as u64)) & 1 } else { 0 })) by (bit_vector)
        requires
            l == a << n,
            n < 64,
            i < 64;
}

/// Rotates move bit `i` of the operand to bit `i + n` (left) or `i - n`
/// (right), modulo 64, for the count `n` taken modulo 64.
pub proof fn law_fold_rotate_bits(a: u64, b: u64, i: u64)
    requires
        i < 64,
    ensures
        (spec_eval_binop(BinOpKind::Rol, a, b) >> (((i + (b & 0x3f)) % 64) as u64)) & 1 == (a >> i) & 1,
        (spec_eval_binop(BinOpKind::Ror, a, b) >> i) & 1 == (a >> (((i + (b & 0x3f)) % 64) as u64)) & 1,
{
    let n = b & 0x3f;
    assert(n < 64) by (bit_vector)
        requires
            n == b & 0x3f;
    let j = ((i + n) % 64) as u64;
    if n == 0 {
        assert(j == i);
    } else {
        let x = rotl(a, n);
        let y = rotr(a, n);
        assert((x >> j) & 1 == (a >> i) & 1) by (bit_vector)
            requires
                x == (a << n) | (a >> ((64 - n) as u64)),
                0 < n < 64,
                i < 64,
                j == ((i + n) % 64) as u64;
        assert((y >> i) & 1 == (a >> j) & 1) by (bit_vector)
            requires
                y == (a >> n) | (a << ((64 - n) as u64)),
                0 < n < 64,
                i < 64,
                j == ((i + n) % 64) as u64;
    }
}

/// Truncating division of nonnegative `x` by positive `d`: quotient and
/// remainder split `x` with the remainder below `d`.
proof fn lemma_pos_divmod(x: int, d: int)
    requires
        x >= 0,
        d > 0,
    ensures
        (x / d) * d + x % d == x,
        0 <= x % d < d,
        0 <= x / d <= x,
{
    assert((x / d) * d + x % d == x && 0 <= x % d < d && 0 <= x / d <= x) by (nonlinear_arith)
        requires
            x >= 0,
            d > 0;
}

/// Folded signed division and remainder truncate toward zero: for a
/// nonzero divisor (and not the overflowing `MIN / -1`), read as signed
/// numbers, `a == q * b + r`, `|r| < |b|`, and a nonzero remainder has the
/// sign of the dividend.
pub proof fn law_fold_sdiv_smod(a: u64, b: u64)
    requires
        b != 0,
        !(a as i64 == i64::MIN && b as i64 == -1),
    ensures
        ({
            let x = (a as i64) as int;
            let d = (b as i64) as int;
            let q = (spec_eval_binop(BinOpKind::SDiv, a, b) as i64) as int;
            let r = (spec_eval_binop(BinOpKind::SMod, a, b) as i64) as int;
            &&& q * d + r == x
            &&& (if r < 0 { -r } else { r }) < (if d < 0 { -d } else { d })
            &&& r == 0 || (r < 0) == (x < 0)
        }),
{
    let x = (a as i64) as int;
    let d = (b as i64) as int;
    let bi = b as i64;
    assert(bi != 0) by (bit_vector)
        requires
            b != 0,
            bi == b as i64;
    let ax = if x < 0 { -x } else { x };
    let ad = if d < 0 { -d } else { d };
    lemma_pos_divmod(ax, ad);
    let uq = ax / ad;
    let ur = ax % ad;
    // The quotient and remainder the folding gives, as integers.
    let q = if x == 0 { 0 } else if x > 0 && d > 0 { x / d } else if x < 0 && d < 0 { (x * -1) / (d * -1) } else if x < 0 { ((x * -1) / d) * -1 } else { (x / (d * -1)) * -1 };
    let r = if x == 0 { 0 } else if x > 0 && d > 0 { x % d } else if x < 0 && d < 0 { ((x * -1) % (d * -1)) * -1 } else if x < 0 { ((x * -1) % d) * -1 } else { x % (d * -1) };
    assert(q == (if (x < 0) == (d < 0) { uq } else { -uq })) by {
        if x < 0 && d < 0 {
            assert(x * -1 == ax && d * -1 == ad);
        } else if x < 0 && d > 0 {
            assert(x * -1 == ax && d == ad);
        } else if x > 0 && d < 0 {
            assert(d * -1 == ad && x == ax);
        }
    }
    assert(r == (if x < 0 { -ur } else { ur })) by {
        if x < 0 && d < 0 {
            assert(x * -1 == ax && d * -1 == ad);
        } else if x < 0 && d > 0 {
            assert(x * -1 == ax && d == ad);
        } else if x > 0 && d < 0 {
            assert(d * -1 == ad && x == ax);
        }
    }
    assert(q * d + r == x) by (nonlinear_arith)
        requires
            uq * ad + ur == ax,
            ax == (if x < 0 { -x } else { x }),
            ad == (if d < 0 { -d } else { d }),
            q == (if (x < 0) == (d < 0) { uq } else { -uq }),
            r == (if x < 0 { -ur } else { ur });
    assert(i64::MIN <= q <= i64::MAX) by {
        assert(-0x8000_0000_0000_0000 <= x <= 0x7FFF_FFFF_FFFF_FFFF);
        if ad == 1 {
            assert(uq == ax) by (nonlinear_arith)
                requires
                    uq * ad + ur == ax,
                    0 <= ur < ad,
                    ad == 1;
            assert(!(x == -0x8000_0000_0000_0000 && d == -1));
        } else {
            assert(uq <= ax / 2) by (nonlinear_arith)
                requires
                    uq * ad + ur == ax,
                    0 <= ur,
                    ad >= 2,
                    uq >= 0;
        }
    }
    assert(i64::MIN <= r <= i64::MAX);
    let qi = q as i64;
    let ri = r as i64;
    let qu = qi as u64;
    let ru = ri as u64;
    assert(qu as i64 == qi) by (bit_vector)
        requires
            qu == qi as u64;
    assert(ru as i64 == ri) by (bit_vector)
        requires
            ru == ri as u64;
    assert(spec_eval_binop(BinOpKind::SDiv, a, b) == qu);
    assert(spec_eval_binop(BinOpKind::SMod, a, b) == ru);
}

proof fn lemma_deposit_within(src: u64, mask: u64, i: nat)
    ensures
        deposit_from(src, mask, i) & !mask == 0,
    decreases 64 - i,
{
    if i < 64 {
        let n = i as u64;
        if bit(mask, n) {
            lemma_deposit_within(src >> 1, mask, i + 1);
            let rest = deposit_from(src >> 1, mask, i + 1);
            let x: u64 = if bit(src, 0) { 1u64 << n } else { 0u64 };
            assert((x | rest) & !mask == 0) by (bit_vector)
                requires
                    rest & !mask == 0,
                    x == 0 || x == 1u64 << n,
                    (mask >> n) & 1 == 1,
                    n < 64;
        } else {
            lemma_deposit_within(src, mask, i + 1);
        }
    } else {
        assert(0u64 & !mask == 0) by (bit_vector);
    }
}

/// A folded parallel bit deposit sets bits only where the mask has them.
pub proof fn law_fold_pdep_within_mask(a: u64, b: u64)
    ensures
        spec_eval_binop(BinOpKind::Pdep, a, b) & !b == 0,
{
    lemma_deposit_within(a, b, 0);
}

} // verus!
