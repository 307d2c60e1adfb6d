//! Function-level optimization pipeline.

use std::time::{Duration, Instant};

use vstd::prelude::*;

use crate::ir::{Function, Stmt};
use crate::passes::algebraic::{al_block, algebraic_simplify};
use crate::passes::branch_fold::{bf_block, branch_fold};
use crate::passes::const_prop::{constant_propagate, cp_block};
use crate::passes::copy_prop::{copy_block, copy_propagate};
use crate::passes::cse::{common_subexpression_eliminate, cse_block};
use crate::passes::dce::{dce_result, dead_code_eliminate};
use crate::passes::dead_store::{dead_store_eliminate, ds_block};
use crate::passes::flag_write_elim::{flag_write_elimination, fw_block};
use crate::passes::global_cse::{cse_per_block, global_cse};
use crate::passes::licm::{licm_result, loop_invariant_motion};
use crate::passes::peephole::{peephole_optimise_default, pp_block};
use crate::passes::redundant_load::{redundant_load_eliminate, rl_block};
use crate::passes::blockwise;

verus! {

#[verifier::external_type_specification]
#[verifier::external_body]
pub struct ExInstant(Instant);

/// Calls `std::time::Instant::now`; nothing is claimed of the reading.
#[verifier::external_body]
fn clock_now() -> (t: Instant) {
    Instant::now()
}

/// Calls `std::time::Instant::elapsed`; nothing is claimed of the duration.
#[verifier::external_body]
fn clock_elapsed(t: &Instant) -> (d: Duration) {
    t.elapsed()
}

/// `Clone` of `std::time::Duration`, a `Copy` type: the clone is the value
/// itself, as for every `Copy` type's `clone`.
pub assume_specification [<Duration as Clone>::clone](d: &Duration) -> (r: Duration)
    ensures
        r == *d,
;

/// The passes a pipeline can hold.
#[derive(Debug, Clone, Copy, PartialEq, Eq, Structural)]
pub enum PassKind {
    ConstantProp,
    Algebraic,
    Peephole,
    RedundantLoad,
    Cse,
    CopyProp,
    DeadStore,
    BranchFold,
    FlagWriteElim,
    Dce,
    GlobalCse,
    Licm,
}

/// The name a pass reports.
pub open spec fn kind_name(k: PassKind) -> Seq<char> {
    match k {
        PassKind::ConstantProp => "constant_propagate"@,
        PassKind::Algebraic => "algebraic_simplify"@,
        PassKind::Peephole => "peephole"@,
        PassKind::RedundantLoad => "redundant_load_eliminate"@,
        PassKind::Cse => "common_subexpression_eliminate"@,
        PassKind::CopyProp => "copy_prop"@,
        PassKind::DeadStore => "dead_store_eliminate"@,
        PassKind::BranchFold => "branch_fold"@,
        PassKind::FlagWriteElim => "flag_write_elimination"@,
        PassKind::Dce => "dead_code_eliminate"@,
        PassKind::GlobalCse => "global_cse"@,
        PassKind::Licm => "loop_invariant_motion"@,
    }
}

/// What running the pass `k` on `func` gives.
pub open spec fn pass_relation(k: PassKind, func: Function, out: Function) -> bool {
    match k {
        PassKind::ConstantProp => blockwise(func, out, |s: Seq<Stmt>| cp_block(s)),
        PassKind::Algebraic => blockwise(func, out, |s: Seq<Stmt>| al_block(s)),
        PassKind::Peephole => blockwise(func, out, |s: Seq<Stmt>| pp_block(s)),
        PassKind::RedundantLoad => blockwise(func, out, |s: Seq<Stmt>| rl_block(s)),
        PassKind::Cse => blockwise(func, out, |s: Seq<Stmt>| cse_block(s)),
        PassKind::CopyProp => blockwise(func, out, |s: Seq<Stmt>| copy_block(s)),
        PassKind::DeadStore => blockwise(func, out, |s: Seq<Stmt>| ds_block(s)),
        PassKind::BranchFold => blockwise(func, out, |s: Seq<Stmt>| bf_block(s)),
        PassKind::FlagWriteElim => blockwise(func, out, |s: Seq<Stmt>| fw_block(s)),
        PassKind::Dce => dce_result(func, out),
        PassKind::GlobalCse => cse_per_block(func, out),
        PassKind::Licm => licm_result(func, out),
    }
}

/// `out` is what running `passes` in order on `func` gives.
pub open spec fn pipeline_chain(passes: Seq<PassKind>, func: Function, out: Function) -> bool
    decreases passes.len(),
{
    if passes.len() == 0 {
        out == func
    } else {
        exists|mid: Function| pipeline_chain(passes.drop_last(), func, mid) && pass_relation(passes.last(), mid, out)
    }
}

impl PassKind {
    pub fn name(&self) -> (r: &'static str)
        ensures
            r@ == kind_name(*self),
    {
        match self {
            PassKind::ConstantProp => "constant_propagate",
            PassKind::Algebraic => "algebraic_simplify",
            PassKind::Peephole => "peephole",
            PassKind::RedundantLoad => "redundant_load_eliminate",
            PassKind::Cse => "common_subexpression_eliminate",
            PassKind::CopyProp => "copy_prop",
            PassKind::DeadStore => "dead_store_eliminate",
            PassKind::BranchFold => "branch_fold",
            PassKind::FlagWriteElim => "flag_write_elimination",
            PassKind::Dce => "dead_code_eliminate",
            PassKind::GlobalCse => "global_cse",
            PassKind::Licm => "loop_invariant_motion",
        }
    }

    pub fn run(&self, func: Function) -> (out: Function)
        ensures
            pass_relation(*self, func, out),
    {
        match self {
            PassKind::ConstantProp => constant_propagate(func),
            PassKind::Algebraic => algebraic_simplify(func),
            PassKind::Peephole => peephole_optimise_default(func),
            PassKind::RedundantLoad => redundant_load_eliminate(func),
            PassKind::Cse => common_subexpression_eliminate(func),
            PassKind::CopyProp => copy_propagate(func),
            PassKind::DeadStore => dead_store_eliminate(func),
            PassKind::BranchFold => branch_fold(func),
            PassKind::FlagWriteElim => flag_write_elimination(func),
            PassKind::Dce => dead_code_eliminate(func),
            PassKind::GlobalCse => global_cse(func),
            PassKind::Licm => loop_invariant_motion(func),
        }
    }
}

/// Per-pass timing and the total, produced by [`PassPipeline::run_with_stats`].
#[derive(Debug, Default, Clone, PartialEq, Eq)]
pub struct PipelineStats {
    pub pass_times: Vec<(&'static str, Duration)>,
    pub total_time: Duration,
}

/// Ordered list of optimization passes.
pub struct PassPipeline {
    passes: Vec<PassKind>,
}

impl Default for PassPipeline {
    fn default() -> (p: Self)
        ensures
            p.kinds() == Seq::<PassKind>::empty(),
    {
        PassPipeline { passes: Vec::new() }
    }
}

impl PassPipeline {
    /// The passes, in the order they run.
    pub closed spec fn kinds(&self) -> Seq<PassKind> {
        self.passes@
    }

    /// Run all registered passes in order.
    pub fn run(&self, func: Function) -> (out: Function)
        ensures
            pipeline_chain(self.kinds(), func, out),
    {
        let mut cur = func;
        let mut i: usize = 0;
        while i < self.passes.len()
            invariant
                i <= self.passes.len(),
                pipeline_chain(self.passes@.take(i as int), func, cur),
            decreases self.passes.len() - i,
        {
            let ghost prev = cur;
            cur = self.passes[i].run(cur);
            proof {
                assert(self.passes@.take(i + 1).drop_last() =~= self.passes@.take(i as int));
                assert(pipeline_chain(self.passes@.take(i + 1).drop_last(), func, prev));
                assert(self.passes@.take(i + 1).last() == self.passes@[i as int]);
                assert(pass_relation(self.passes@.take(i + 1).last(), prev, cur));
                assert(pipeline_chain(self.passes@.take(i + 1), func, cur));
            }
            i = i + 1;
        }
        proof {
            assert(self.passes@.take(self.passes.len() as int) =~= self.passes@);
        }
        cur
    }

    /// Run all passes, recording per-pass and total elapsed time.
    #[must_use]
    pub fn run_with_stats(&self, func: Function) -> (r: (Function, PipelineStats))
        ensures
            pipeline_chain(self.kinds(), func, r.0),
            r.1.pass_times.len() == self.kinds().len(),
            forall|i: int| 0 <= i < self.kinds().len() ==> (#[trigger] r.1.pass_times@[i]).0@ == kind_name(self.kinds()[i]),
    {
        let start = clock_now();
        let mut pass_times: Vec<(&'static str, Duration)> = Vec::new();
        let mut cur = func;
        let mut i: usize = 0;
        while i < self.passes.len()
            invariant
                i <= self.passes.len(),
                pass_times.len() == i,
                pipeline_chain(self.passes@.take(i as int), func, cur),
                forall|j: int| 0 <= j < i ==> (#[trigger] pass_times@[j]).0@ == kind_name(self.passes@[j]),
            decreases self.passes.len() - i,
        {
            let t0 = clock_now();
            let ghost prev = cur;
            cur = self.passes[i].run(cur);
            proof {
                assert(self.passes@.take(i + 1).drop_last() =~= self.passes@.take(i as int));
                assert(pipeline_chain(self.passes@.take(i + 1).drop_last(), func, prev));
                assert(self.passes@.take(i + 1).last() == self.passes@[i as int]);
                assert(pass_relation(self.passes@.take(i + 1).last(), prev, cur));
                assert(pipeline_chain(self.passes@.take(i + 1), func, cur));
            }
            pass_times.push((self.passes[i].name(), clock_elapsed(&t0)));
            i = i + 1;
        }
        proof {
            assert(self.passes@.take(self.passes.len() as int) =~= self.passes@);
        }
        let total_time = clock_elapsed(&start);
        (cur, PipelineStats { pass_times, total_time })
    }

    /// Number of passes in this pipeline.
    #[must_use]
    pub fn size(&self) -> (n: usize)
        ensures
            n == self.kinds().len(),
    {
        self.passes.len()
    }

    /// Human-readable list of pass names.
    #[must_use]
    pub fn pass_names(&self) -> (names: Vec<&'static str>)
        ensures
            names.len() == self.kinds().len(),
            forall|i: int| 0 <= i < names.len() ==> (#[trigger] names@[i])@ == kind_name(self.kinds()[i]),
    {
        let mut names: Vec<&'static str> = Vec::new();
        let mut i: usize = 0;
        while i < self.passes.len()
            invariant
                i <= self.passes.len(),
                names.len() == i,
                forall|j: int| 0 <= j < i ==> (#[trigger] names@[j])@ == kind_name(self.passes@[j]),
            decreases self.passes.len() - i,
        {
            names.push(self.passes[i].name());
            i = i + 1;
        }
        names
    }
}

/// Number of passes in the default pipeline.
pub const DEFAULT_PIPELINE_LEN: usize = 11;

/// The passes of the default pipeline, in order.
pub open spec fn default_kinds() -> Seq<PassKind> {
    seq![
        PassKind::ConstantProp,
        PassKind::Algebraic,
        PassKind::Peephole,
        PassKind::ConstantProp,
        PassKind::RedundantLoad,
        PassKind::Cse,
        PassKind::CopyProp,
        PassKind::DeadStore,
        PassKind::BranchFold,
        PassKind::FlagWriteElim,
        PassKind::Dce,
    ]
}

/// Return the default optimization pipeline.
#[must_use]
pub fn default_pipeline() -> (p: PassPipeline)
    ensures
        p.kinds() == default_kinds(),
        p.kinds().len() == DEFAULT_PIPELINE_LEN,
{
    let passes = vec![
        PassKind::ConstantProp,
        PassKind::Algebraic,
        PassKind::Peephole,
        PassKind::ConstantProp,
        PassKind::RedundantLoad,
        PassKind::Cse,
        PassKind::CopyProp,
        PassKind::DeadStore,
        PassKind::BranchFold,
        PassKind::FlagWriteElim,
        PassKind::Dce,
    ];
    proof {
        assert(passes@ =~= default_kinds());
    }
    PassPipeline { passes }
}

/// Return the function-level (CFG-aware) pipeline: `global_cse` collapses
/// duplicate computations along dominator edges first, then
/// `loop_invariant_motion` hoists invariants to loop preheaders.
#[must_use]
pub fn default_function_pipeline() -> (p: PassPipeline)
    ensures
        p.kinds() == seq![PassKind::GlobalCse, PassKind::Licm],
{
    let passes = vec![PassKind::GlobalCse, PassKind::Licm];
    proof {
        assert(passes@ =~= seq![PassKind::GlobalCse, PassKind::Licm]);
    }
    PassPipeline { passes }
}

} // verus!
